//! Pure decision and formatting logic of the kopuz music player's components
//! and configuration, with contracts checked by Verus.

pub mod config;
pub mod text;
pub mod timefmt;
pub mod track;
pub mod sorting;
pub mod queue;
pub mod lyrics;
pub mod selection;
pub mod navigation;
pub mod menu;
pub mod style;
pub mod remote;
pub mod playlists;
pub mod scripts;
pub mod downloads;
pub mod sharing;
pub mod scroll;
pub mod track_menu;
pub mod showcase;
pub mod metadata;
pub mod now_playing;
pub mod playlist_sync;
pub mod row_clicks;
pub mod sidebar;
pub mod themes;
