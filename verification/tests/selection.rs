use kopuz_components::selection::TrackSelection;
use kopuz_components::track::Track;

fn at(path: &str) -> Track {
    Track {
        path: path.to_string(),
        album_id: String::new(),
        title: path.to_string(),
        artist: String::new(),
        album: String::new(),
        duration: 1,
        disc_number: None,
        track_number: None,
    }
}

fn ids(tracks: &[Track]) -> Vec<String> {
    tracks.iter().map(|t| t.path.clone()).collect()
}

#[test]
fn long_press_starts_selection() {
    let tracks = vec![at("/a.mp3"), at("/b.mp3")];
    let list = ids(&tracks);
    let mut sel = TrackSelection::new();
    assert!(!sel.selection_mode);
    sel.long_press(&list, 1);
    assert!(sel.selection_mode);
    assert_eq!(sel.selected, vec!["/b.mp3".to_string()]);
    sel.long_press(&list, 7);
    assert_eq!(sel.selected, vec!["/b.mp3".to_string()]);
}

#[test]
fn deselecting_the_last_track_leaves_selection_mode() {
    let tracks = vec![at("/a.mp3"), at("/b.mp3")];
    let list = ids(&tracks);
    let mut sel = TrackSelection::new();
    sel.select(&list, 0, true);
    sel.select(&list, 1, true);
    assert!(sel.all_selected(&list));
    sel.select(&list, 0, false);
    assert!(sel.selection_mode);
    assert!(!sel.all_selected(&list));
    sel.select(&list, 1, false);
    assert!(!sel.selection_mode);
    assert!(sel.selected.is_empty());
}

#[test]
fn select_all_and_cancel() {
    let tracks = vec![at("/a.mp3"), at("/b.mp3")];
    let list = ids(&tracks);
    let mut sel = TrackSelection::new();
    assert!(!sel.all_selected(&[]));
    sel.select_all(&list, true);
    assert!(sel.selection_mode);
    assert!(sel.all_selected(&list));
    sel.select_all(&list, false);
    assert!(!sel.selection_mode);
    assert!(sel.selected.is_empty());
    sel.select(&list, 0, true);
    sel.cancel();
    assert!(!sel.selection_mode);
    assert!(sel.selected.is_empty());
}

#[test]
fn queueing_the_selection_keeps_list_order() {
    let tracks = vec![at("/a.mp3"), at("/b.mp3"), at("/c.mp3")];
    let list = ids(&tracks);
    let mut sel = TrackSelection::new();
    assert!(sel.take_for_queue(&tracks).is_none());
    sel.select(&list, 2, true);
    sel.select(&list, 0, true);
    let queued = sel.take_for_queue(&tracks).expect("something was selected");
    let paths: Vec<&str> = queued.iter().map(|t| t.path.as_str()).collect();
    assert_eq!(paths, vec!["/a.mp3", "/c.mp3"]);
    assert!(!sel.selection_mode);
    assert!(sel.selected.is_empty());
}

#[test]
fn deleting_the_selection_gives_local_files_only() {
    let tracks = vec![at("/a.mp3"), at("jellyfin:xyz"), at("/c.flac")];
    let list = ids(&tracks);
    let mut sel = TrackSelection::new();
    sel.select_all(&list, true);
    assert_eq!(sel.take_for_delete(&tracks), vec!["/a.mp3".to_string(), "/c.flac".to_string()]);
    assert!(!sel.selection_mode);
    assert!(sel.selected.is_empty());
}
