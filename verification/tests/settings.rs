use kopuz_components::config::{default_device_id, default_discord_presence, default_theme, AppConfig, JellyfinServer, MusicSource};
use kopuz_components::playlists::{
    create_folder_with_playlist, move_entry_down, move_entry_up, move_playlist_to_folder, recently_pulled, last_pull_of, trim,
    PlaylistFolder,
};
use kopuz_components::scripts::{clipboard_script, copy_to_clipboard_script, data_url, toast_script_for, TOAST_SCRIPT_HEAD, TOAST_SCRIPT_TAIL};
use kopuz_components::track::Track;

fn folder(id: &str, ids: &[&str]) -> PlaylistFolder {
    PlaylistFolder { id: id.into(), name: format!("F{id}"), playlist_ids: ids.iter().map(|s| s.to_string()).collect() }
}

fn t(title: &str) -> Track {
    Track {
        path: title.into(),
        album_id: String::new(),
        title: title.into(),
        artist: String::new(),
        album: String::new(),
        duration: 1,
        disc_number: None,
        track_number: None,
    }
}

#[test]
fn defaults() {
    assert_eq!(default_theme(), "default");
    assert_eq!(default_discord_presence(), Some(true));
    let bytes: [u8; 16] = [0x12, 0x34, 0x56, 0x78, 0x9a, 0xbc, 0xde, 0xf0, 0x12, 0x34, 0x56, 0x78, 0x9a, 0xbc, 0xde, 0xf0];
    let id = default_device_id(bytes);
    assert_eq!(id, "12345678-9abc-4ef0-9234-56789abcdef0");
    assert_eq!(default_device_id([0xff; 16]), "ffffffff-ffff-4fff-bfff-ffffffffffff");
    assert_eq!(default_device_id([0; 16]), "00000000-0000-4000-8000-000000000000");
    let c = AppConfig::fresh(bytes);
    assert_eq!(c.active_source, MusicSource::Local);
    assert_eq!(c.music_directory, "./assets");
    assert_eq!(c.theme, "default");
    assert!(c.server.is_none());
    assert_eq!(c.discord_presence, Some(true));
    assert_eq!(c.device_id, id);
    assert_ne!(AppConfig::fresh([7; 16]).device_id, c.device_id);
    let s = JellyfinServer::default();
    assert!(s.name.is_empty() && s.url.is_empty() && s.access_token.is_none() && s.user_id.is_none());
    assert_eq!(MusicSource::default(), MusicSource::Local);
}

#[test]
fn loaded_config_wins() {
    let mut stored = AppConfig::fresh([1; 16]);
    stored.theme = "nord".into();
    assert_eq!(AppConfig::loaded_or_default(Some(stored), [2; 16]).theme, "nord");
    let fresh = AppConfig::loaded_or_default(None, [2; 16]);
    assert_eq!(fresh.theme, "default");
    assert_eq!(fresh.device_id, "02020202-0202-4202-8202-020202020202");
}

#[test]
fn playlist_moves_into_one_folder() {
    let mut folders = vec![folder("a", &["p1", "p2"]), folder("b", &["p3"]), folder("b", &[])];
    move_playlist_to_folder(&mut folders, "p1", "b");
    assert_eq!(folders[0].playlist_ids, vec!["p2"]);
    assert_eq!(folders[1].playlist_ids, vec!["p3", "p1"]);
    assert!(folders[2].playlist_ids.is_empty());
    move_playlist_to_folder(&mut folders, "p1", "missing");
    assert!(folders.iter().all(|f| !f.playlist_ids.contains(&"p1".to_string())));
}

#[test]
fn new_folder_needs_a_name() {
    let mut folders = vec![folder("a", &["p1"])];
    assert!(!create_folder_with_playlist(&mut folders, " \t ", "p1", [5; 16]));
    assert_eq!(folders.len(), 1);
    assert!(create_folder_with_playlist(&mut folders, "  Road trip ", "p1", [5; 16]));
    assert_eq!(folders.len(), 2);
    assert!(folders[0].playlist_ids.is_empty());
    assert_eq!(folders[1].name, "Road trip");
    assert_eq!(folders[1].playlist_ids, vec!["p1"]);
    assert_eq!(folders[1].id, "05050505-0505-4505-8505-050505050505");
    assert_eq!(trim("\n x y \u{3000}"), "x y");
}

#[test]
fn playlist_entries_move() {
    let mut tracks = vec![t("a"), t("b"), t("c")];
    let refs = vec!["ra".to_string(), "rb".to_string(), "rc".to_string()];
    let req = move_entry_up(&mut tracks, Some(refs.clone()), 2, true).unwrap();
    assert_eq!(tracks.iter().map(|t| t.title.as_str()).collect::<Vec<_>>(), vec!["a", "c", "b"]);
    assert_eq!(req.refs, vec!["ra", "rc", "rb"]);
    assert_eq!(req.moved.title, "c");
    assert_eq!(req.position, 1);
    assert!(move_entry_up(&mut tracks, Some(refs.clone()), 0, true).is_none());
    assert!(move_entry_up(&mut tracks, Some(refs.clone()), 1, false).is_none());
    let req = move_entry_down(&mut tracks, Some(refs.clone()), 0, true).unwrap();
    assert_eq!(tracks.iter().map(|t| t.title.as_str()).collect::<Vec<_>>(), vec!["c", "a", "b"]);
    assert_eq!(req.position, 1);
    assert!(move_entry_down(&mut tracks, Some(refs.clone()), 2, true).is_none());
    // The shown list moves even when the stored playlist is shorter.
    assert!(move_entry_down(&mut tracks, Some(vec!["x".to_string()]), 0, true).is_none());
    assert_eq!(tracks[0].title, "a");
}

#[test]
fn pull_freshness() {
    assert!(recently_pulled(1000, 1000));
    assert!(recently_pulled(1000, 1899));
    assert!(!recently_pulled(1000, 1900));
    assert!(!recently_pulled(2000, 1000));
    // Never pulled: always pull, even on a clock near the epoch.
    assert!(!recently_pulled(0, 0));
    assert!(!recently_pulled(0, 10));
    assert_eq!(last_pull_of(None), 0);
    assert_eq!(last_pull_of(Some("1700000000")), 1_700_000_000);
    assert_eq!(last_pull_of(Some("+42")), 42);
    assert_eq!(last_pull_of(Some(" 42")), 0);
    assert_eq!(last_pull_of(Some("18446744073709551616")), 0);
    assert_eq!(last_pull_of(Some("18446744073709551615")), u64::MAX);
    assert_eq!(last_pull_of(Some("")), 0);
}

#[test]
fn scripts_quote_their_text() {
    assert_eq!(
        copy_to_clipboard_script("say \"hi\"\n"),
        "navigator.clipboard.writeText(\"say \\\"hi\\\"\\n\").catch((e) => console.error('clipboard writeText failed', e));"
    );
    assert_eq!(clipboard_script("\"x\""), "navigator.clipboard.writeText(\"x\").catch((e) => console.error('clipboard writeText failed', e));");
    let toast = toast_script_for("Copied link");
    assert!(toast.starts_with("(function(m){"));
    assert_eq!(toast, format!("{TOAST_SCRIPT_HEAD}\"Copied link\"{TOAST_SCRIPT_TAIL}"));
    assert!(toast.ends_with("})(\"Copied link\");"));
}

#[test]
fn data_urls() {
    assert_eq!(data_url(b"hi", "text/plain"), "data:text/plain;base64,aGk=");
    assert_eq!(data_url(&[], "image/png"), "data:image/png;base64,");
    assert_eq!(data_url(&[0xff, 0xfe, 0xfd], "image/jpeg"), "data:image/jpeg;base64,//79");
}

#[test]
fn json_literals_escape_control_characters() {
    use_literal("a\u{1}b\u{1f}\u{8}\u{c}\r\t\\é\u{7f}", "\"a\\u0001b\\u001f\\b\\f\\r\\t\\\\é\u{7f}\"");
}

fn use_literal(text: &str, expected: &str) {
    assert_eq!(kopuz_components::scripts::js_string_literal(text), expected);
}

#[test]
fn data_urls_hold_standard_base64() {
    use_data_url(b"", "data:image/png;base64,");
    use_data_url(b"M", "data:image/png;base64,TQ==");
    use_data_url(b"Ma", "data:image/png;base64,TWE=");
    use_data_url(b"Man", "data:image/png;base64,TWFu");
    use_data_url(&[0xfb, 0xff, 0xbf], "data:image/png;base64,+/+/");
}

fn use_data_url(bytes: &[u8], expected: &str) {
    assert_eq!(data_url(bytes, "image/png"), expected);
}
