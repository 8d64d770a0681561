use kopuz_components::config::JellyfinServer;
use kopuz_components::remote::{favorite_sync_done, has_sync_credentials, FavoriteSync};
use kopuz_components::remote::{
    bitrate_capped, display_artist, favorite_key, get_favorite, is_blank, is_currently_playing, item_path,
    jellyfin_album_id, jellyfin_cover_url, jellyfin_item_id, join_names, kbps_capped, revert_favorite,
    split_colons, subsonic_album_id, ticks_to_secs, toggle_favorite, url_hex_tag, FavoriteKey,
    FavoriteToggle, FavoritesStore,
};
use kopuz_components::track::Track;

fn at(path: &str) -> Track {
    Track {
        path: path.to_string(),
        album_id: String::new(),
        title: "Song".to_string(),
        artist: "Artist".to_string(),
        album: "Album".to_string(),
        duration: 200,
        disc_number: None,
        track_number: None,
    }
}

#[test]
fn split_like_str_split() {
    assert_eq!(split_colons("jellyfin:abc:tag"), vec!["jellyfin", "abc", "tag"]);
    assert_eq!(split_colons(""), vec![""]);
    assert_eq!(split_colons("a::"), vec!["a", "", ""]);
    assert_eq!(split_colons("plain"), vec!["plain"]);
}

#[test]
fn favorite_keys() {
    assert_eq!(favorite_key("jellyfin:abc:tag"), FavoriteKey::Server("abc".to_string()));
    assert_eq!(favorite_key("subsonic:42"), FavoriteKey::Server("42".to_string()));
    assert_eq!(favorite_key("custom: \t:x"), FavoriteKey::Missing);
    assert_eq!(favorite_key("jellyfin:"), FavoriteKey::Missing);
    assert_eq!(favorite_key("/home/me/a.flac"), FavoriteKey::Local);
    assert!(is_blank(" \u{2003}\n"));
    assert!(!is_blank(" a "));
}

#[test]
fn favorites_lookup_and_toggle() {
    let mut store = FavoritesStore { server_ids: vec!["abc".into()], local_paths: vec![] };
    assert!(get_favorite(Some(&at("jellyfin:abc:t")), &store));
    assert!(!get_favorite(Some(&at("/a.flac")), &store));
    assert!(!get_favorite(None, &store));

    let r = toggle_favorite(Some(&at("/a.flac")), &mut store);
    assert_eq!(r, FavoriteToggle::Local);
    assert!(get_favorite(Some(&at("/a.flac")), &store));
    toggle_favorite(Some(&at("/a.flac")), &mut store);
    assert!(!get_favorite(Some(&at("/a.flac")), &store));

    let r = toggle_favorite(Some(&at("jellyfin:abc")), &mut store);
    assert_eq!(r, FavoriteToggle::Sync { item_id: "abc".into(), new_fav: false });
    assert!(!get_favorite(Some(&at("jellyfin:abc")), &store));
    revert_favorite(&mut store, "abc", false);
    assert!(get_favorite(Some(&at("jellyfin:abc")), &store));
    assert_eq!(toggle_favorite(Some(&at("jellyfin:")), &mut store), FavoriteToggle::Nothing);
    assert_eq!(toggle_favorite(None, &mut store), FavoriteToggle::Nothing);
}

#[test]
fn jellyfin_ids_and_playing_match() {
    assert_eq!(jellyfin_item_id("jellyfin:x1:tag"), Some("x1".to_string()));
    assert_eq!(jellyfin_item_id("subsonic:x1"), None);
    let track = at("jellyfin:x1");
    let path = "jellyfin:x1".to_string();
    let other = "jellyfin:x2".to_string();
    let (title, artist, album) = ("Song".to_string(), "Artist".to_string(), "Album".to_string());
    assert!(is_currently_playing(&track, Some(&path), &title, &artist, &album, 0));
    assert!(!is_currently_playing(&track, Some(&other), &title, &artist, &album, 200));
    assert!(is_currently_playing(&track, None, &title, &artist, &album, 200));
    assert!(!is_currently_playing(&track, None, &String::new(), &artist, &album, 200));
    assert!(!is_currently_playing(&track, None, &title, &artist, &album, 201));
}

#[test]
fn cover_urls() {
    let token = "tok".to_string();
    assert_eq!(
        jellyfin_cover_url("jellyfin:id1:tg", "http://h", Some(&token)),
        Some("http://h/Items/id1/Images/Primary?tag=tg&api_key=tok".to_string())
    );
    assert_eq!(
        jellyfin_cover_url("jellyfin:id1", "http://h", None),
        Some("http://h/Items/id1/Images/Primary".to_string())
    );
    assert_eq!(
        jellyfin_cover_url("jellyfin:id1", "http://h", Some(&token)),
        Some("http://h/Items/id1/Images/Primary?api_key=tok".to_string())
    );
    assert_eq!(jellyfin_cover_url("nocolon", "http://h", None), None);
}

#[test]
fn server_item_paths_and_numbers() {
    let tag = "T".to_string();
    assert_eq!(item_path("id", Some(&tag)), "jellyfin:id:T");
    assert_eq!(item_path("id", None), "jellyfin:id");
    assert_eq!(jellyfin_album_id(Some(&"al".to_string())), "jellyfin:al");
    assert_eq!(jellyfin_album_id(None), "");
    assert_eq!(subsonic_album_id(Some(&"al".to_string()), "it", Some(&tag)), "jellyfin:al:T");
    assert_eq!(subsonic_album_id(Some(&"al".to_string()), "it", None), "jellyfin:al:none");
    assert_eq!(subsonic_album_id(None, "it", Some(&tag)), "jellyfin:it:none");
    assert_eq!(url_hex_tag("ab/"), "urlhex_61622f");
    assert_eq!(url_hex_tag("é"), "urlhex_c3a9");
    assert_eq!(ticks_to_secs(Some(1_800_000_000)), 180);
    assert_eq!(ticks_to_secs(None), 0);
    assert_eq!(kbps_capped(Some(320_000)), 255);
    assert_eq!(kbps_capped(Some(128_999)), 128);
    assert_eq!(kbps_capped(None), 0);
    assert_eq!(bitrate_capped(Some(1411)), 255);
    assert_eq!(bitrate_capped(Some(96)), 96);
}

#[test]
fn artist_names() {
    let names = vec!["A".to_string(), "B".to_string(), "C".to_string()];
    assert_eq!(join_names(&names, ", "), "A, B, C");
    assert_eq!(join_names(&vec![], ", "), "");
    assert_eq!(display_artist(Some(&"Band".to_string()), Some(&names)), "Band");
    assert_eq!(display_artist(None, Some(&names)), "A, B, C");
    assert_eq!(display_artist(None, None), "");
}

#[test]
fn favourite_sync_outcomes() {
    let mut server = JellyfinServer::default();
    assert!(!has_sync_credentials(&None));
    assert!(!has_sync_credentials(&Some(server.clone())));
    server.access_token = Some("t".to_string());
    assert!(!has_sync_credentials(&Some(server.clone())));
    server.user_id = Some("u".to_string());
    assert!(has_sync_credentials(&Some(server)));

    let mut store = FavoritesStore { server_ids: vec!["a".to_string()], local_paths: vec![] };
    assert!(!favorite_sync_done(&mut store, "a", true, FavoriteSync::Sent));
    assert_eq!(store.server_ids, vec!["a".to_string()]);
    assert!(favorite_sync_done(&mut store, "a", true, FavoriteSync::Failed));
    assert!(store.server_ids.is_empty());
    assert!(favorite_sync_done(&mut store, "b", false, FavoriteSync::NoCredentials));
    assert_eq!(store.server_ids, vec!["b".to_string()]);
}
