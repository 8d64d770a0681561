use kopuz_components::metadata::{
    artist_field, cover_mime, cover_mime_for_path, number_field, parse_number_field, parse_u64, track_edits, CoverChange,
};

#[test]
fn number_fields() {
    assert_eq!(parse_number_field(" 7 "), Some(7));
    assert_eq!(parse_number_field("+12"), Some(12));
    assert_eq!(parse_number_field("007"), Some(7));
    assert_eq!(parse_number_field("4294967295"), Some(u32::MAX));
    assert_eq!(parse_number_field("4294967296"), None);
    assert_eq!(parse_number_field("99999999999x"), None);
    assert_eq!(parse_number_field(""), None);
    assert_eq!(parse_number_field("   "), None);
    assert_eq!(parse_number_field("+"), None);
    assert_eq!(parse_number_field("-1"), None);
    assert_eq!(parse_number_field("1 2"), None);
    assert_eq!(parse_number_field("3a"), None);
}

#[test]
fn number_fields_agree_with_std() {
    for s in ["0", "+0", "10", "  42\t", "4294967295", "4294967300", "x", "", "++1", "1e3"] {
        assert_eq!(parse_number_field(s), s.trim().parse::<u32>().ok(), "{s:?}");
    }
}

#[test]
fn cover_mime_types() {
    assert_eq!(cover_mime(Some("PNG")), "image/png");
    assert_eq!(cover_mime(Some("gif")), "image/gif");
    assert_eq!(cover_mime(Some("WebP")), "image/webp");
    assert_eq!(cover_mime(Some("jpg")), "image/jpeg");
    assert_eq!(cover_mime(None), "image/jpeg");
}

#[test]
fn editor_fields_and_record() {
    let artists = vec!["A".to_string(), "B".to_string()];
    assert_eq!(artist_field(&artists, &"Solo".to_string()), "A, B");
    assert_eq!(artist_field(&vec![], &"Solo".to_string()), "Solo");
    assert_eq!(number_field(Some(12)), "12");
    assert_eq!(number_field(None), "");
    let e = track_edits(&"T".to_string(), &"A, B".to_string(), &"Al".to_string(), " 3 ", "x", CoverChange::Remove);
    assert_eq!(e.title, "T");
    assert_eq!(e.artist, "A, B");
    assert_eq!(e.album, "Al");
    assert_eq!(e.track_number, Some(3));
    assert_eq!(e.disc_number, None);
    assert_eq!(e.cover, CoverChange::Remove);
}

#[test]
fn u64_numbers_agree_with_std() {
    for s in ["0", "+7", "18446744073709551615", "18446744073709551616", "", "+", " 1", "12a"] {
        assert_eq!(parse_u64(s), s.parse::<u64>().ok(), "{s:?}");
    }
}

#[test]
fn unchanged_number_fields_save_unchanged() {
    for n in [None, Some(0), Some(7), Some(12), Some(u32::MAX)] {
        let e = track_edits(&"T".to_string(), &"A".to_string(), &"L".to_string(), &number_field(n), &number_field(n), CoverChange::Keep);
        assert_eq!(e.track_number, n);
        assert_eq!(e.disc_number, n);
    }
}

#[test]
fn whitespace_agrees_with_std() {
    for u in 0u32..=0x10FFFF {
        if let Some(c) = char::from_u32(u) {
            assert_eq!(kopuz_components::remote::is_whitespace_char(c), c.is_whitespace(), "U+{u:04X}");
        }
    }
}

#[test]
fn cover_mime_from_a_path() {
    assert_eq!(cover_mime_for_path("/home/me/Pictures/cover.PNG"), "image/png");
    assert_eq!(cover_mime_for_path("/home/me/a.webp"), "image/webp");
    assert_eq!(cover_mime_for_path("/home/me/a.jpeg"), "image/jpeg");
    assert_eq!(cover_mime_for_path("/home/me/noext"), "image/jpeg");
}
