use vstd::prelude::*;
use crate::playlists::{trim, trimmed};

verus! {

/// What a click on an album card's play button does.
#[derive(Debug, Clone, PartialEq, Eq)]
pub enum AlbumClick {
    /// The card's album is the one playing: pause or resume it.
    Toggle,
    /// Start playing the card's album.
    Play(String),
    /// A card without an album: nothing.
    Nothing,
}

/// The play button of an album card.
#[derive(Debug, Clone, PartialEq, Eq)]
pub struct AlbumButton {
    /// Pause icon (else play icon).
    pub shows_pause: bool,
    pub click: AlbumClick,
}

/// Whether the card's album is the album of the playing track.
pub open spec fn is_current_album(album_id: Option<Seq<char>>, playing_album: Option<Seq<char>>) -> bool {
    album_id is Some && playing_album is Some && album_id->0 == playing_album->0
}

/// The play button of an album card: it shows pause while this album is the
/// one playing, and a click then pauses or resumes it; for any other album a
/// click plays it; a card without an album plays nothing and never shows the
/// playing state.
pub fn album_play_button(album_id: Option<&String>, playing_album: Option<&String>, is_playing: bool) -> (r: AlbumButton)
    ensures
        ({
            let card = match album_id {
                Some(a) => Some(a@),
                None => None,
            };
            let current = is_current_album(card, match playing_album {
                Some(p) => Some(p@),
                None => None,
            });
            &&& r.shows_pause == (current && is_playing)
            &&& current ==> r.click == AlbumClick::Toggle
            &&& !current ==> match album_id {
                Some(a) => r.click matches AlbumClick::Play(id) && id@ == a@,
                None => r.click == AlbumClick::Nothing,
            }
        }),
{
    let is_current = match (album_id, playing_album) {
        (Some(id), Some(p)) => *p == *id,
        _ => false,
    };
    let click = if is_current {
        AlbumClick::Toggle
    } else {
        match album_id {
            Some(id) => AlbumClick::Play(id.clone()),
            None => AlbumClick::Nothing,
        }
    };
    AlbumButton { shows_pause: is_current && is_playing, click }
}

/// What a click on a track's title or album name does.
#[derive(Debug, Clone, PartialEq, Eq)]
pub enum TitleClick {
    /// Play the track.
    Play,
    /// Open the album page.
    OpenAlbum(String),
    /// In selection mode, or no album to open: nothing.
    Nothing,
}

/// Whether a track has an album to open: its album name is not blank.
pub open spec fn has_album(album: Seq<char>) -> bool {
    trimmed(album).len() > 0
}

/// A click on a track's title. In selection mode nothing happens. On a phone
/// the title plays the track. On a desktop it opens the album, except that in
/// the layout with `albumless_plays` a track without an album (a blank album
/// name) is played instead of opening a meaningless album page.
pub fn title_click(is_selection_mode: bool, is_mobile: bool, albumless_plays: bool, album: &str, album_id: &String) -> (r: TitleClick)
    ensures
        is_selection_mode ==> r == TitleClick::Nothing,
        !is_selection_mode && (is_mobile || (albumless_plays && !has_album(album@))) ==> r == TitleClick::Play,
        !is_selection_mode && !is_mobile && !(albumless_plays && !has_album(album@)) ==> (r matches TitleClick::OpenAlbum(id)
            && id@ == album_id@),
{
    if is_selection_mode {
        return TitleClick::Nothing;
    }
    let has = !trim(album).as_str().is_empty();
    if is_mobile || (albumless_plays && !has) {
        TitleClick::Play
    } else {
        TitleClick::OpenAlbum(album_id.clone())
    }
}

/// A click on a track's album name: opens the album, outside selection mode
/// and when there is one.
pub fn album_name_click(is_selection_mode: bool, album: &str, album_id: &String) -> (r: TitleClick)
    ensures
        !is_selection_mode && has_album(album@) ==> (r matches TitleClick::OpenAlbum(id) && id@ == album_id@),
        is_selection_mode || !has_album(album@) ==> r == TitleClick::Nothing,
{
    if !is_selection_mode && !trim(album).as_str().is_empty() {
        TitleClick::OpenAlbum(album_id.clone())
    } else {
        TitleClick::Nothing
    }
}

} // verus!
