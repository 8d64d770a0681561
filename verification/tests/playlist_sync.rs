use kopuz_components::playlist_sync::{PlaylistWalk, WalkEnd};
use kopuz_components::track::Track;

fn keyed(path: &str) -> Track {
    Track {
        path: path.to_string(),
        album_id: String::new(),
        title: path.to_string(),
        artist: String::new(),
        album: String::new(),
        duration: 3,
        disc_number: None,
        track_number: None,
    }
}

fn paths(tracks: &[Track]) -> Vec<&str> {
    tracks.iter().map(|t| t.path.as_str()).collect()
}

#[test]
fn pages_are_gathered_without_repeats() {
    let mut walk = PlaylistWalk::new();
    let first = walk.take_page(&[keyed("y:1"), keyed("y:2"), keyed("y:2")], Some("p2".to_string()), 0);
    assert_eq!(paths(&first.fresh), vec!["y:1", "y:2"]);
    assert_eq!(first.start, 0);
    assert!(first.show);
    assert_eq!(first.next, Some("p2".to_string()));

    // The boundary track comes again on the next page.
    let second = walk.take_page(&[keyed("y:2"), keyed(""), keyed("y:3")], None, 2);
    assert_eq!(paths(&second.fresh), vec!["y:3"]);
    assert_eq!(second.start, 2);
    assert!(second.show);
    assert_eq!(second.next, None);
    assert_eq!(paths(&walk.tracks), vec!["y:1", "y:2", "y:3"]);
}

#[test]
fn a_page_of_repeats_changes_nothing() {
    let mut walk = PlaylistWalk::new();
    walk.take_page(&[keyed("y:1")], Some("c".to_string()), 5);
    let step = walk.take_page(&[keyed("y:1")], Some("d".to_string()), 0);
    assert!(step.fresh.is_empty());
    assert!(!step.show);
    assert_eq!(step.start, 1);
    assert_eq!(paths(&walk.tracks), vec!["y:1"]);
}

#[test]
fn the_shown_list_only_grows() {
    let mut walk = PlaylistWalk::new();
    let step = walk.take_page(&[keyed("y:1"), keyed("y:2")], None, 10);
    assert!(!step.show);
}

#[test]
fn a_walk_ends_complete_or_abandoned() {
    let mut walk = PlaylistWalk::new();
    let step = walk.take_page(&[keyed("y:1")], None, 0);
    assert!(step.store);
    match walk.finish(false) {
        WalkEnd::Complete(tracks) => assert_eq!(paths(&tracks), vec!["y:1"]),
        WalkEnd::Abandoned => panic!("the walk was complete"),
    }
    let mut failed = PlaylistWalk::new();
    let repeat = failed.take_page(&[keyed("")], Some("n".to_string()), 0);
    assert!(!repeat.store);
    assert!(matches!(failed.finish(true), WalkEnd::Abandoned));
}
