use kopuz_components::lyrics::{
    active_secondary_lines,
    lyric_line_active_scale, lyric_line_class, lyric_line_max_width, lyric_line_style,
    lyric_line_transform_origin, main_line_indices, LayoutMode, LyricLine, FULLSCREEN_ACTIVE_CENTER_LYRIC_CLASS,
    RIGHTBAR_BACKGROUND_OPPOSITE_LYRIC_CLASS, RIGHTBAR_MAIN_LYRIC_CLASS, LYRIC_STYLE,
};
use kopuz_components::menu::MenuAction;
use kopuz_components::scroll::scroll_window;
use kopuz_components::navigation::{NavigationController, Route};
use kopuz_components::selection::{handle_select_click, SelectClick};
use kopuz_components::sharing::{eq_preset_key, radio_outcome, share_to_musicbrainz, share_track, EqPreset, RadioOutcome, SharePlan};
use kopuz_components::style::{entries, service_style, skin_for, MusicService, ServerSource, Source, UiStyle, LOCAL_ACCENT};

fn line(background: bool, opposite_turn: bool, parent: Option<usize>) -> LyricLine {
    LyricLine { background, opposite_turn, parent_line_index: parent }
}

#[test]
fn lyric_classes_by_kind() {
    assert_eq!(
        lyric_line_class(LayoutMode::Fullscreen, &line(false, false, None), true, false),
        FULLSCREEN_ACTIVE_CENTER_LYRIC_CLASS
    );
    assert_eq!(
        lyric_line_class(LayoutMode::Rightbar, &line(false, false, None), false, true),
        RIGHTBAR_MAIN_LYRIC_CLASS
    );
    assert_eq!(
        lyric_line_class(LayoutMode::Rightbar, &line(true, true, Some(0)), false, false),
        RIGHTBAR_BACKGROUND_OPPOSITE_LYRIC_CLASS
    );
}

#[test]
fn lyric_line_geometry() {
    assert_eq!(lyric_line_active_scale(&line(true, false, None), true), "1.02");
    assert_eq!(lyric_line_active_scale(&line(false, false, None), true), "1.06");
    assert_eq!(lyric_line_active_scale(&line(false, false, None), false), "1.12");
    assert_eq!(lyric_line_transform_origin(&line(false, true, None), false), "right center");
    assert_eq!(lyric_line_transform_origin(&line(false, false, None), true), "left center");
    assert_eq!(lyric_line_transform_origin(&line(false, false, None), false), "center");
    assert_eq!(lyric_line_max_width(LayoutMode::Fullscreen, &line(false, false, None), false), "min(100%, 38rem)");
    assert_eq!(lyric_line_max_width(LayoutMode::Rightbar, &line(false, true, None), false), "min(90%, 18rem)");
    assert_eq!(
        lyric_line_style(LayoutMode::Rightbar, &line(false, false, None), true),
        format!("{LYRIC_STYLE} width: min(90%, 18rem); max-width: min(90%, 18rem); margin-left: 0; margin-right: auto;")
    );
}

#[test]
fn main_lines_fall_back_to_all() {
    let lines = [line(false, false, None), line(true, false, Some(0)), line(false, true, None)];
    assert_eq!(main_line_indices(&lines), vec![0, 2]);
    let background_only = [line(true, false, None), line(true, false, None)];
    assert_eq!(main_line_indices(&background_only), vec![0, 1]);
    assert_eq!(main_line_indices(&[]), Vec::<usize>::new());
    assert_eq!(LayoutMode::Rightbar.name(), "rightbar");
    assert_eq!(LayoutMode::Fullscreen.name(), "fullscreen");
}

#[test]
fn select_click_decisions() {
    assert_eq!(handle_select_click(false, false, true, true), SelectClick::LongPress);
    assert_eq!(handle_select_click(false, false, true, false), SelectClick::Select(true));
    assert_eq!(handle_select_click(false, false, false, false), SelectClick::Ignore);
    assert_eq!(handle_select_click(true, false, true, true), SelectClick::Select(false));
    assert_eq!(handle_select_click(false, true, true, true), SelectClick::Select(true));
    assert_eq!(handle_select_click(true, true, false, true), SelectClick::Ignore);
}

#[test]
fn navigation_ignores_empty_targets() {
    let mut nav = NavigationController {
        current_route: Route::Home,
        selected_artist_name: "Old".to_string(),
        selected_album_id: "al1".to_string(),
    };
    nav.navigate_to_artist(String::new());
    assert_eq!(nav.current_route, Route::Home);
    assert_eq!(nav.selected_artist_name, "Old");
    nav.navigate_to_artist("Björk".to_string());
    assert_eq!(nav.current_route, Route::Artist);
    assert_eq!(nav.selected_artist_name, "Björk");
    nav.navigate_to_album("al2".to_string());
    assert_eq!(nav.current_route, Route::Album);
    assert_eq!(nav.selected_album_id, "al2");
    assert_eq!(nav.selected_artist_name, "Björk");
}

#[test]
fn menu_actions() {
    let a = MenuAction::new("Delete".to_string(), "fa-trash".to_string());
    assert!(!a.destructive);
    let d = a.destructive();
    assert!(d.destructive);
    assert_eq!(d.label, "Delete");
    assert_eq!(d.icon, "fa-trash");
}

#[test]
fn skins_and_service_styles() {
    assert_eq!(skin_for(UiStyle::Normal).container, "bg-[#0a0a0a]");
    assert_eq!(skin_for(UiStyle::Modern).container, "bg-black");
    assert_eq!(skin_for(UiStyle::Modern).play_icon, "text-sm");
    assert_eq!(service_style(MusicService::Jellyfin), ("fa-solid fa-server", "#b277ee"));
    assert_eq!(service_style(MusicService::Custom), service_style(MusicService::Subsonic));
    assert_eq!(service_style(MusicService::YtMusic), ("fa-brands fa-youtube", "#ff3355"));
}

#[test]
fn source_entries_list_local_first() {
    let servers = vec![
        ServerSource { id: "s1".into(), name: "Home".into(), service: MusicService::Jellyfin, service_name: "Jellyfin".into() },
        ServerSource { id: "s2".into(), name: "Nav".into(), service: MusicService::Subsonic, service_name: "Navidrome ß".into() },
    ];
    let e = entries(&servers, "Local".into(), "On this device".into());
    assert_eq!(e.len(), 3);
    assert_eq!(e[0].source, Source::Local);
    assert_eq!(e[0].accent, LOCAL_ACCENT);
    assert_eq!(e[1].source, Source::Server("s1".into()));
    assert_eq!(e[1].subline, "JELLYFIN");
    assert_eq!(e[2].label, "Nav");
    assert_eq!(e[2].icon, "fa-solid fa-compact-disc");
    assert_eq!(e[2].subline, "NAVIDROME SS");
}

#[test]
fn sharing_and_radio_decisions() {
    assert_eq!(
        share_track(Some("https://y/t".into())),
        SharePlan::CopyLink { url: "https://y/t".into(), toast: "Copied link" }
    );
    assert_eq!(share_track(None), SharePlan::LookUpMusicBrainz);
    assert_eq!(share_to_musicbrainz(Some("u".into())), (Some("u".to_string()), "Copied MusicBrainz link"));
    assert_eq!(share_to_musicbrainz(None), (None, "Couldn't find this track on MusicBrainz"));
    assert_eq!(radio_outcome(true, 3), RadioOutcome::Play);
    assert_eq!(radio_outcome(true, 0), RadioOutcome::Empty);
    assert_eq!(radio_outcome(false, 3), RadioOutcome::Failed);
    assert_eq!(eq_preset_key(EqPreset::BassBoost), "eq_preset_bass_boost");
    assert_eq!(eq_preset_key(EqPreset::Custom), "eq_preset_custom");
}

#[test]
fn secondary_lines_of_the_main_line() {
    let lines = vec![
        line(false, false, None),
        line(true, false, Some(0)),
        line(false, false, None),
        line(true, true, Some(0)),
        line(true, false, Some(2)),
    ];
    let chunks = vec![Some(4), Some(2), None, None, Some(1)];
    assert_eq!(active_secondary_lines(&lines, &chunks, 0), "[[1,2],[3,-1]]");
    assert_eq!(active_secondary_lines(&lines, &chunks, 2), "[[4,1]]");
    assert_eq!(active_secondary_lines(&lines, &chunks, 1), "[]");
    assert_eq!(active_secondary_lines(&[], &[], 0), "[]");
}

#[test]
fn scroll_window_bounds() {
    // Twenty buffer rows plus the twelve that fit.
    assert_eq!(scroll_window(40, 12, 1000), (40, 32));
    // Near the end the window stops at the last row.
    assert_eq!(scroll_window(990, 12, 1000), (990, 10));
    // A position past the end starts at the last row.
    assert_eq!(scroll_window(5000, 12, 1000), (999, 1));
    // A short list is drawn whole.
    assert_eq!(scroll_window(0, 30, 7), (0, 7));
    assert_eq!(scroll_window(3, 30, 0), (0, 0));
}
