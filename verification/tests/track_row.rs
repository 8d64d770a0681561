use kopuz_components::row_clicks::{album_name_click, album_play_button, title_click, AlbumClick, TitleClick};
use kopuz_components::track::Track;
use kopuz_components::track_menu::TrackMenuAction::{
    AddToPlaylist, AddToQueue, Delete, Download, PlayNext, RemoveFromPlaylist, Share, StartRadio, ViewMetadata,
};
use kopuz_components::track_menu::{
    badge_for_extension, file_type_badge, track_menu_choice, track_menu_entries, track_menu_layout,
    TrackMenuAction, TrackMenuOptions, TrackMenuTexts,
};

fn texts() -> TrackMenuTexts {
    TrackMenuTexts {
        play_next: "Play next".to_string(),
        add_to_queue: "Add to queue".to_string(),
        add_to_playlist: "Add to playlist".to_string(),
        remove_from_playlist: "Remove from playlist".to_string(),
        delete: "Delete".to_string(),
        share: "Share".to_string(),
        view_metadata: "View metadata".to_string(),
    }
}

fn all_options() -> TrackMenuOptions {
    TrackMenuOptions {
        has_queue: true,
        has_remove: true,
        has_download: true,
        hide_delete: false,
        has_radio: true,
        has_view_metadata: true,
    }
}

fn track_at(path: &str) -> Track {
    Track {
        path: path.to_string(),
        album_id: String::new(),
        title: String::new(),
        artist: String::new(),
        album: String::new(),
        duration: 0,
        disc_number: None,
        track_number: None,
    }
}

#[test]
fn full_menu_order() {
    assert_eq!(
        track_menu_layout(all_options()),
        vec![PlayNext, AddToQueue, AddToPlaylist, RemoveFromPlaylist, Download, Delete, Share, StartRadio, ViewMetadata]
    );
}

#[test]
fn minimal_menu_order() {
    let o = TrackMenuOptions {
        has_queue: false,
        has_remove: false,
        has_download: false,
        hide_delete: true,
        has_radio: false,
        has_view_metadata: false,
    };
    assert_eq!(track_menu_layout(o), vec![AddToPlaylist, Share]);
    assert_eq!(track_menu_choice(o, 0), Some(AddToPlaylist));
    assert_eq!(track_menu_choice(o, 1), Some(Share));
    assert_eq!(track_menu_choice(o, 2), None);
}

#[test]
fn every_clicked_entry_is_the_one_shown() {
    for bits in 0u32..64 {
        let o = TrackMenuOptions {
            has_queue: bits & 1 != 0,
            has_remove: bits & 2 != 0,
            has_download: bits & 4 != 0,
            hide_delete: bits & 8 != 0,
            has_radio: bits & 16 != 0,
            has_view_metadata: bits & 32 != 0,
        };
        let layout = track_menu_layout(o);
        for idx in 0..layout.len() + 3 {
            assert_eq!(track_menu_choice(o, idx), layout.get(idx).copied());
        }
    }
}

#[test]
fn menu_entries_labels_and_colours() {
    let entries = track_menu_entries(all_options(), &texts(), false, true);
    assert_eq!(entries.len(), 9);
    assert_eq!(entries[0].label, "Play next");
    assert_eq!(entries[0].icon, "fa-solid fa-forward-step");
    assert!(!entries[0].destructive);
    assert_eq!(entries[4].label, "Remove Download");
    assert_eq!(entries[4].icon, "fa-solid fa-trash-can");
    assert!(entries[4].destructive);
    assert_eq!(entries[5].label, "Delete");
    assert!(entries[5].destructive);
    assert_eq!(entries[7].label, "Start radio");
    assert_eq!(entries[7].icon, "fa-solid fa-tower-broadcast");

    let downloading = track_menu_entries(all_options(), &texts(), true, false);
    assert_eq!(downloading[4].label, "Downloading...");
    assert_eq!(downloading[4].icon, "fa-solid fa-spinner fa-spin");
    assert!(!downloading[4].destructive);

    let fresh = track_menu_entries(all_options(), &texts(), false, false);
    assert_eq!(fresh[4].label, "Download Offline");
    assert_eq!(fresh[4].icon, "fa-solid fa-download");
}

#[test]
fn file_type_badges() {
    assert_eq!(badge_for_extension("mp3"), Some("MP3".to_string()));
    assert_eq!(badge_for_extension("FlAc"), Some("FLAC".to_string()));
    assert_eq!(badge_for_extension("txt"), None);
    assert_eq!(badge_for_extension(""), None);
    assert_eq!(file_type_badge(&track_at("/music/a/song.Opus")), Some("OPUS".to_string()));
    assert_eq!(file_type_badge(&track_at("/music/a/song")), None);
    assert_eq!(file_type_badge(&track_at("/music/a/cover.jpg")), None);
    assert_eq!(file_type_badge(&track_at("jellyfin:abc123:tag.mp3")), None);
}

#[test]
fn album_card_button() {
    let a = "album-1".to_string();
    let b = "album-2".to_string();
    let playing = album_play_button(Some(&a), Some(&a), true);
    assert!(playing.shows_pause);
    assert_eq!(playing.click, AlbumClick::Toggle);
    let paused = album_play_button(Some(&a), Some(&a), false);
    assert!(!paused.shows_pause);
    assert_eq!(paused.click, AlbumClick::Toggle);
    let other = album_play_button(Some(&b), Some(&a), true);
    assert!(!other.shows_pause);
    assert_eq!(other.click, AlbumClick::Play("album-2".to_string()));
    let none = album_play_button(None, Some(&a), true);
    assert!(!none.shows_pause);
    assert_eq!(none.click, AlbumClick::Nothing);
}

#[test]
fn title_and_album_clicks() {
    let id = "alb".to_string();
    assert_eq!(title_click(true, false, true, "Album", &id), TitleClick::Nothing);
    assert_eq!(title_click(false, true, true, "Album", &id), TitleClick::Play);
    assert_eq!(title_click(false, false, true, "Album", &id), TitleClick::OpenAlbum("alb".to_string()));
    assert_eq!(title_click(false, false, true, "  ", &id), TitleClick::Play);
    assert_eq!(title_click(false, false, false, "  ", &id), TitleClick::OpenAlbum("alb".to_string()));
    assert_eq!(album_name_click(false, "Album", &id), TitleClick::OpenAlbum("alb".to_string()));
    assert_eq!(album_name_click(false, "", &id), TitleClick::Nothing);
    assert_eq!(album_name_click(true, "Album", &id), TitleClick::Nothing);
}
