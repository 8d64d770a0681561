use kopuz_components::sorting::{
    album_tracks, folder_tracks, folder_tracks_from_flags, icon_class, next_sort_state, sort_icon,
    sorted_track_indices, sorted_track_pairs, toggle_sort_state, SortDirection, SortField,
};
use kopuz_components::track::Track;

fn track(title: &str, artist: &str, album: &str, duration: u64, disc: Option<u32>, number: Option<u32>) -> Track {
    Track {
        path: format!("/music/{title}.flac"),
        album_id: album.to_lowercase(),
        title: title.to_string(),
        artist: artist.to_string(),
        album: album.to_string(),
        duration,
        disc_number: disc,
        track_number: number,
    }
}

fn sample() -> Vec<Track> {
    vec![
        track("beta", "Zed", "Second", 200, Some(1), Some(2)),
        track("Alpha", "amy", "First", 300, Some(1), Some(1)),
        track("gamma", "Bob", "first", 100, None, Some(3)),
        track("alpha", "Cat", "Second", 200, Some(1), Some(1)),
    ]
}

#[test]
fn sort_state_cycles_per_column() {
    let s1 = next_sort_state(None, SortField::Title);
    assert_eq!(s1, Some((SortField::Title, SortDirection::Asc)));
    let s2 = next_sort_state(s1, SortField::Title);
    assert_eq!(s2, Some((SortField::Title, SortDirection::Desc)));
    let s3 = next_sort_state(s2, SortField::Title);
    assert_eq!(s3, None);
    assert_eq!(
        next_sort_state(s2, SortField::Artist),
        Some((SortField::Artist, SortDirection::Asc))
    );
}

#[test]
fn toggle_sort_state_stores_next() {
    let mut state = Some((SortField::Album, SortDirection::Asc));
    toggle_sort_state(&mut state, SortField::Album);
    assert_eq!(state, Some((SortField::Album, SortDirection::Desc)));
    toggle_sort_state(&mut state, SortField::Album);
    assert_eq!(state, None);
}

#[test]
fn sort_icons() {
    let asc = Some((SortField::Title, SortDirection::Asc));
    let desc = Some((SortField::Title, SortDirection::Desc));
    assert_eq!(sort_icon(asc, SortField::Title), "fa-solid fa-sort-up");
    assert_eq!(sort_icon(desc, SortField::Title), "fa-solid fa-sort-down");
    assert_eq!(sort_icon(asc, SortField::Artist), "fa-solid fa-sort");
    assert_eq!(sort_icon(None, SortField::Title), "fa-solid fa-sort");
    assert_eq!(icon_class(None, SortField::Title), "");
    assert_eq!(icon_class(Some(desc), SortField::Title), "fa-solid fa-sort-down");
}

#[test]
fn unsorted_keeps_positions() {
    assert_eq!(sorted_track_indices(&sample(), None), vec![0, 1, 2, 3]);
    assert_eq!(sorted_track_indices(&[], Some((SortField::Title, SortDirection::Asc))), Vec::<usize>::new());
}

#[test]
fn title_sort_ignores_case_and_keeps_ties_in_order() {
    let tracks = sample();
    // "Alpha" and "alpha" compare equal once lowercased: the earlier stays first.
    assert_eq!(
        sorted_track_indices(&tracks, Some((SortField::Title, SortDirection::Asc))),
        vec![1, 3, 0, 2]
    );
    assert_eq!(
        sorted_track_indices(&tracks, Some((SortField::Title, SortDirection::Desc))),
        vec![2, 0, 1, 3]
    );
}

#[test]
fn artist_and_duration_sorts() {
    let tracks = sample();
    assert_eq!(
        sorted_track_indices(&tracks, Some((SortField::Artist, SortDirection::Asc))),
        vec![1, 2, 3, 0]
    );
    assert_eq!(
        sorted_track_indices(&tracks, Some((SortField::Duration, SortDirection::Asc))),
        vec![2, 0, 3, 1]
    );
    assert_eq!(
        sorted_track_indices(&tracks, Some((SortField::Duration, SortDirection::Desc))),
        vec![1, 0, 3, 2]
    );
}

#[test]
fn album_sort_breaks_ties_by_disc_track_and_title() {
    let tracks = sample();
    // first/First tie: disc 0 (none) before disc 1; Second tie: track 1 before 2.
    assert_eq!(
        sorted_track_indices(&tracks, Some((SortField::Album, SortDirection::Asc))),
        vec![2, 1, 3, 0]
    );
    // Descending flips only the album names; the tie-breaks stay ascending.
    assert_eq!(
        sorted_track_indices(&tracks, Some((SortField::Album, SortDirection::Desc))),
        vec![3, 0, 2, 1]
    );
}

#[test]
fn sorted_pairs_carry_payloads() {
    let pairs: Vec<(Track, u32)> = sample().into_iter().zip([10, 11, 12, 13]).collect();
    let sorted = sorted_track_pairs(&pairs, Some((SortField::Duration, SortDirection::Asc)));
    let payloads: Vec<u32> = sorted.iter().map(|(_, p)| *p).collect();
    assert_eq!(payloads, vec![12, 10, 13, 11]);
    assert_eq!(sorted[0].0.title, "gamma");
}

#[test]
fn album_listing_in_disc_and_track_order() {
    let tracks = vec![
        track("c", "x", "A", 1, Some(2), Some(1)),
        track("b", "x", "A", 1, Some(1), Some(2)),
        track("z", "x", "B", 1, Some(1), Some(1)),
        track("a", "x", "A", 1, None, Some(9)),
        track("B2", "x", "A", 1, Some(1), Some(2)),
    ];
    let listed = album_tracks(&tracks, &"a".to_string());
    let titles: Vec<&str> = listed.iter().map(|t| t.title.as_str()).collect();
    // No disc number sorts first; equal numbers fall back to the title ("B2" < "b").
    assert_eq!(titles, vec!["a", "B2", "b", "c"]);
}

#[test]
fn folder_listing_uses_flags() {
    let tracks = sample();
    let listed = folder_tracks_from_flags(&tracks, &[true, false, true, true]);
    let titles: Vec<&str> = listed.iter().map(|t| t.title.as_str()).collect();
    assert_eq!(titles, vec!["gamma", "alpha", "beta"]);
}

#[test]
fn tracks_under_a_folder() {
    let mut inside = track("b", "X", "A", 1, Some(1), Some(2));
    inside.path = "/music/rock/b.flac".to_string();
    let mut first = track("a", "X", "A", 1, Some(1), Some(1));
    first.path = "/music/rock/deep/a.flac".to_string();
    let mut beside = track("c", "X", "A", 1, Some(1), Some(3));
    beside.path = "/music/rockabilly/c.flac".to_string();
    let mut above = track("d", "X", "A", 1, Some(1), Some(4));
    above.path = "/music".to_string();
    let listed = folder_tracks(&[inside, beside, above, first], "/music/rock");
    let titles: Vec<&str> = listed.iter().map(|t| t.title.as_str()).collect();
    assert_eq!(titles, vec!["a", "b"]);
}

#[test]
fn sorted_pairs_are_the_pairs_at_the_sorted_indices() {
    let pairs: Vec<(Track, u32)> = sample().into_iter().zip([10, 11, 12, 13]).collect();
    let firsts: Vec<Track> = pairs.iter().map(|(t, _)| t.clone()).collect();
    for state in [
        None,
        Some((SortField::Title, SortDirection::Asc)),
        Some((SortField::Artist, SortDirection::Desc)),
        Some((SortField::Album, SortDirection::Asc)),
        Some((SortField::Duration, SortDirection::Desc)),
    ] {
        let by_pairs: Vec<u32> = sorted_track_pairs(&pairs, state).iter().map(|(_, p)| *p).collect();
        let by_indices: Vec<u32> = sorted_track_indices(&firsts, state).iter().map(|&i| pairs[i].1).collect();
        assert_eq!(by_pairs, by_indices);
    }
}
