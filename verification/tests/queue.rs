use kopuz_components::queue::{
    insert_queue_tracks, is_radio_track, listed_queue_tracks, queue_duration, queue_sections,
    shift_indices_at_or_after, up_next_duration, QueueState,
};
use kopuz_components::track::Track;

fn t(title: &str, duration: u64) -> Track {
    Track {
        path: format!("/q/{title}"),
        album_id: String::new(),
        title: title.to_string(),
        artist: String::new(),
        album: String::new(),
        duration,
        disc_number: None,
        track_number: None,
    }
}

fn titles(v: &[Track]) -> Vec<String> {
    v.iter().map(|t| t.title.clone()).collect()
}

fn play_order(s: &QueueState) -> Vec<String> {
    if s.shuffle {
        s.shuffle_order.iter().map(|&i| s.queue[i].title.clone()).collect()
    } else {
        titles(&s.queue)
    }
}

#[test]
fn shift_moves_only_later_positions() {
    let mut v = vec![0, 3, 5, 2, 7];
    shift_indices_at_or_after(&mut v, 3, 2);
    assert_eq!(v, vec![0, 5, 7, 2, 9]);
}

#[test]
fn insert_without_shuffle_clamps_to_end() {
    let mut s = QueueState {
        queue: vec![t("a", 1), t("b", 1)],
        shuffle: false,
        shuffle_order: vec![],
        current_queue_index: 1,
        history: vec![0],
    };
    insert_queue_tracks(&mut s, 1, vec![t("x", 1), t("y", 1)]);
    assert_eq!(titles(&s.queue), vec!["a", "x", "y", "b"]);
    assert_eq!(s.current_queue_index, 1);
    insert_queue_tracks(&mut s, 99, vec![t("z", 1)]);
    assert_eq!(titles(&s.queue), vec!["a", "x", "y", "b", "z"]);
    insert_queue_tracks(&mut s, 0, vec![]);
    assert_eq!(s.queue.len(), 5);
}

#[test]
fn insert_while_shuffling_plays_at_drop_position() {
    // queue a b c, playing order c a b, currently on position 1 (a)
    let mut s = QueueState {
        queue: vec![t("a", 1), t("b", 1), t("c", 1)],
        shuffle: true,
        shuffle_order: vec![2, 0, 1],
        current_queue_index: 1,
        history: vec![2, 1],
    };
    insert_queue_tracks(&mut s, 1, vec![t("x", 1), t("y", 1)]);
    // the tracks go into the queue before "a" (queue position 0)
    assert_eq!(titles(&s.queue), vec!["x", "y", "a", "b", "c"]);
    assert_eq!(s.shuffle_order, vec![4, 0, 1, 2, 3]);
    assert_eq!(play_order(&s), vec!["c", "x", "y", "a", "b"]);
    assert_eq!(s.current_queue_index, 3);
    assert_eq!(s.history, vec![4, 3]);
}

#[test]
fn insert_past_shuffled_end_appends() {
    let mut s = QueueState {
        queue: vec![t("a", 1), t("b", 1)],
        shuffle: true,
        shuffle_order: vec![1, 0],
        current_queue_index: 0,
        history: vec![],
    };
    insert_queue_tracks(&mut s, 5, vec![t("x", 1)]);
    assert_eq!(titles(&s.queue), vec!["a", "b", "x"]);
    assert_eq!(s.shuffle_order, vec![1, 0, 2]);
    assert_eq!(play_order(&s), vec!["b", "a", "x"]);
    assert_eq!(s.current_queue_index, 0);
}

#[test]
fn queue_duration_skips_streams_and_saturates() {
    assert_eq!(queue_duration(&[t("a", 60), t("radio", u64::MAX), t("b", 30)]), 90);
    assert_eq!(queue_duration(&[t("a", u64::MAX - 5), t("b", 10)]), u64::MAX);
    assert_eq!(queue_duration(&[]), 0);
}

#[test]
fn radio_tracks_have_no_end() {
    assert!(is_radio_track(Some(&t("r", u64::MAX))));
    assert!(!is_radio_track(Some(&t("a", 10))));
    assert!(!is_radio_track(None));
}

#[test]
fn side_panel_lists_play_order() {
    let s = QueueState {
        queue: vec![t("a", 1), t("b", 1), t("c", 1)],
        shuffle: true,
        shuffle_order: vec![2, 7, 0],
        current_queue_index: 0,
        history: vec![],
    };
    assert_eq!(titles(&listed_queue_tracks(&s)), vec!["c", "a"]);
    let plain = QueueState { shuffle: false, ..s };
    assert_eq!(titles(&listed_queue_tracks(&plain)), vec!["a", "b", "c"]);
}

#[test]
fn fullscreen_sections() {
    let s = QueueState {
        queue: vec![t("a", 10), t("b", 20), t("c", 30), t("d", 40)],
        shuffle: false,
        shuffle_order: vec![],
        current_queue_index: 1,
        history: vec![],
    };
    let (back, next) = queue_sections(&s);
    assert_eq!(back.iter().map(|(i, _)| *i).collect::<Vec<_>>(), vec![0]);
    assert_eq!(next.iter().map(|(i, _)| *i).collect::<Vec<_>>(), vec![2, 3]);
    assert_eq!(up_next_duration(&next), 70);

    // While shuffling both lists show the shuffled order up to the current position.
    let shuffled = QueueState { shuffle: true, shuffle_order: vec![3, 1, 0, 2], current_queue_index: 2, ..s };
    let (back, next) = queue_sections(&shuffled);
    assert_eq!(back.iter().map(|(i, _)| *i).collect::<Vec<_>>(), vec![3, 1]);
    assert_eq!(next.iter().map(|(i, _)| *i).collect::<Vec<_>>(), vec![3, 1]);
}
