use kopuz_components::now_playing::{apple_music_catalog_id, fullscreen_cover_src, LyricsFetches, LyricsStart};

#[test]
fn cover_sources() {
    assert_eq!(fullscreen_cover_src(""), None);
    assert_eq!(
        fullscreen_cover_src("artwork://cover?id=3"),
        Some("artwork://cover?id=3&hq=1".to_string())
    );
    assert_eq!(fullscreen_cover_src("https://x/y.jpg"), Some("https://x/y.jpg".to_string()));
}

#[test]
fn catalog_ids() {
    assert_eq!(apple_music_catalog_id("applemusic:12345"), "12345");
    assert_eq!(apple_music_catalog_id("applemusic:"), "");
    assert_eq!(apple_music_catalog_id("jellyfin:abc"), "jellyfin:abc");
}

#[test]
fn lyrics_fetch_generations() {
    let mut f = LyricsFetches::new();
    let first = f.start("Song", "/a.mp3");
    assert_eq!(first, LyricsStart::Fetch(1));
    assert!(f.is_current(1));
    assert_eq!(f.start("Song", "/a.mp3"), LyricsStart::Unchanged);
    assert!(f.is_current(1));
    assert_eq!(f.start("Other", "/b.mp3"), LyricsStart::Fetch(2));
    assert!(!f.is_current(1));
    assert_eq!(f.start("", ""), LyricsStart::NoTitle);
    assert!(!f.is_current(2));
}

#[test]
fn lyrics_fetch_generation_wraps() {
    let mut f = LyricsFetches { last_key: String::new(), fetch_gen: u32::MAX };
    assert_eq!(f.start("Song", ""), LyricsStart::Fetch(0));
    assert!(!f.is_current(u32::MAX));
}
