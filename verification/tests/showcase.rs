use kopuz_components::showcase::{
    all_downloaded, disc_rows, has_multiple_discs, offline_key, showcase_minutes, DiscRow,
};
use kopuz_components::track::Track;

fn lasting(duration: u64) -> Track {
    Track {
        path: String::new(),
        album_id: String::new(),
        title: String::new(),
        artist: String::new(),
        album: String::new(),
        duration,
        disc_number: None,
        track_number: None,
    }
}

fn row(header: Option<u32>, row_num: usize) -> DiscRow {
    DiscRow { header, row_num }
}

#[test]
fn header_minutes() {
    assert_eq!(showcase_minutes(&[lasting(200), lasting(219), lasting(1)]), 7);
    assert_eq!(showcase_minutes(&[lasting(59)]), 0);
    assert_eq!(showcase_minutes(&[]), 0);
}

#[test]
fn multiple_discs() {
    assert!(has_multiple_discs(&[Some(1), None, Some(2)]));
    assert!(!has_multiple_discs(&[Some(1), None, Some(1)]));
    assert!(!has_multiple_discs(&[None, None]));
    assert!(!has_multiple_discs(&[]));
}

#[test]
fn downloads_of_a_list() {
    assert!(all_downloaded(&[true, true]));
    assert!(!all_downloaded(&[true, false]));
    assert!(!all_downloaded(&[]));
}

#[test]
fn offline_keys() {
    assert_eq!(offline_key("jellyfin:abc:tag"), "abc");
    assert_eq!(offline_key("/music/song.mp3"), "/music/song.mp3");
    assert_eq!(offline_key("subsonic:"), "");
}

#[test]
fn album_rows_by_disc() {
    let discs = [Some(1), Some(1), Some(2), Some(2), Some(2)];
    assert_eq!(
        disc_rows(&discs, true, 0, 0, 5),
        vec![row(Some(1), 1), row(None, 2), row(Some(2), 1), row(None, 2), row(None, 3)]
    );
    // Numbered within whole discs: the drawn rows keep their place in the disc.
    assert_eq!(disc_rows(&discs, true, 0, 3, 5), vec![row(None, 2), row(None, 3)]);
    // Followed within the drawn rows only: the first drawn row opens its disc.
    assert_eq!(disc_rows(&discs, true, 3, 3, 5), vec![row(Some(2), 1), row(None, 2)]);
    // Sorted or not an album: plain numbering.
    assert_eq!(disc_rows(&discs, false, 0, 1, 3), vec![row(None, 2), row(None, 3)]);
}

#[test]
fn album_rows_single_disc_and_unnumbered() {
    assert_eq!(disc_rows(&[Some(1), Some(1)], true, 0, 0, 2), vec![row(None, 1), row(None, 2)]);
    assert_eq!(disc_rows(&[None, None], true, 0, 0, 2), vec![row(None, 1), row(None, 2)]);
    // A row without a disc number after a numbered disc is headed as disc 1.
    assert_eq!(
        disc_rows(&[Some(2), None, Some(3)], true, 0, 0, 3),
        vec![row(Some(2), 1), row(Some(1), 1), row(Some(3), 1)]
    );
}
