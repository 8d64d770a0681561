use vstd::prelude::*;
use crate::remote::{has_prefix, starts_with};
use crate::text::chars_of;

verus! {

/// The image shown for the playing track in the full-screen view: nothing
/// without a cover, the high-quality rendition of an embedded artwork URL, or
/// the cover URL as it is.
pub open spec fn cover_src_of(cover: Seq<char>) -> Option<Seq<char>> {
    if cover.len() == 0 {
        None
    } else if starts_with(cover, "artwork://"@) {
        Some(cover + "&hq=1"@)
    } else {
        Some(cover)
    }
}

/// The cover image source of the full-screen view; `None` draws the placeholder.
pub fn fullscreen_cover_src(cover: &str) -> (r: Option<String>)
    ensures
        match cover_src_of(cover@) {
            Some(s) => r matches Some(v) && v@ == s,
            None => r is None,
        },
{
    if cover.is_empty() {
        return None;
    }
    let mut s = String::from_str(cover);
    if has_prefix(cover, "artwork://") {
        s.append("&hq=1");
    }
    Some(s)
}

/// The Apple Music catalog id in a track path: the path after `applemusic:`,
/// or the whole path when it has no such prefix.
pub open spec fn catalog_id_of(path: Seq<char>) -> Seq<char> {
    if starts_with(path, "applemusic:"@) {
        path.skip(11)
    } else {
        path
    }
}

/// The catalog id sent with an Apple Music lyrics request.
pub fn apple_music_catalog_id(track_path: &str) -> (r: String)
    ensures
        r@ == catalog_id_of(track_path@),
{
    if has_prefix(track_path, "applemusic:") {
        let cs = chars_of(track_path);
        let mut out = String::new();
        let mut i: usize = 11;
        proof {
            reveal_strlit("applemusic:");
        }
        assert(out@ =~= track_path@.skip(11).take(0));
        while i < cs.len()
            invariant
                11 <= i <= cs@.len(),
                cs@ == track_path@,
                out@ == track_path@.skip(11).take(i - 11),
            decreases cs@.len() - i,
        {
            crate::text::push_char(&mut out, cs[i]);
            i = i + 1;
            assert(out@ =~= track_path@.skip(11).take(i - 11));
        }
        assert(track_path@.skip(11).take(cs@.len() - 11) =~= track_path@.skip(11));
        out
    } else {
        String::from_str(track_path)
    }
}

/// The identity of a lyrics request: the title and the track path.
pub open spec fn lyrics_key_of(title: Seq<char>, track_path: Seq<char>) -> Seq<char> {
    title + "|"@ + track_path
}

/// What a lyrics panel (full screen or side panel) does when the playing
/// track may have changed.
#[derive(Debug, Clone, Copy, PartialEq, Eq, Structural)]
pub enum LyricsStart {
    /// The same track as before: the lyrics shown stay.
    Unchanged,
    /// A track without a title: no lyrics.
    NoTitle,
    /// Fetch lyrics; only results tagged with this fetch id are shown.
    Fetch(u32),
}

/// The lyrics fetches of a lyrics panel: the request last started and
/// a counter that tags each fetch, so that a slow answer to an older request
/// is dropped.
pub struct LyricsFetches {
    pub last_key: String,
    pub fetch_gen: u32,
}

impl LyricsFetches {
    /// No fetch yet.
    pub fn new() -> (r: LyricsFetches)
        ensures
            r.last_key@ == Seq::<char>::empty(),
            r.fetch_gen == 0,
    {
        LyricsFetches { last_key: String::new(), fetch_gen: 0 }
    }

    /// A playing track was seen. A new track (by title and path) starts a new
    /// fetch generation, which makes every earlier fetch stale.
    pub fn start(&mut self, title: &str, track_path: &str) -> (r: LyricsStart)
        ensures
            old(self).last_key@ == lyrics_key_of(title@, track_path@) ==> r == LyricsStart::Unchanged
                && final(self).last_key@ == old(self).last_key@ && final(self).fetch_gen == old(self).fetch_gen,
            old(self).last_key@ != lyrics_key_of(title@, track_path@) ==> {
                &&& final(self).last_key@ == lyrics_key_of(title@, track_path@)
                &&& final(self).fetch_gen == (if old(self).fetch_gen == u32::MAX { 0 } else { old(self).fetch_gen + 1 })
                &&& final(self).fetch_gen != old(self).fetch_gen
                &&& r == (if title@.len() == 0 { LyricsStart::NoTitle } else { LyricsStart::Fetch(final(self).fetch_gen) })
            },
    {
        let mut key = String::from_str(title);
        key.append("|");
        key.append(track_path);
        if key == self.last_key {
            return LyricsStart::Unchanged;
        }
        self.last_key = key;
        let fetch_id = self.fetch_gen.wrapping_add(1);
        self.fetch_gen = fetch_id;
        if title.is_empty() {
            LyricsStart::NoTitle
        } else {
            LyricsStart::Fetch(fetch_id)
        }
    }

    /// Whether an answer to fetch `fetch_id` may still be shown.
    pub fn is_current(&self, fetch_id: u32) -> (r: bool)
        ensures
            r == (self.fetch_gen == fetch_id),
    {
        self.fetch_gen == fetch_id
    }
}

} // verus!
