use vstd::prelude::*;
use crate::remote::holds;
use crate::track::Track;

verus! {

/// The keys (paths) of tracks, in order.
pub open spec fn track_keys(tracks: Seq<Track>) -> Seq<Seq<char>> {
    tracks.map_values(|t: Track| t.path@)
}

/// The tracks gathered after taking in `page`: each page track with a key
/// that was not met before (on earlier pages or earlier on this one) is
/// appended, in page order.
pub open spec fn gathered(acc: Seq<Track>, page: Seq<Track>) -> Seq<Track>
    decreases page.len(),
{
    if page.len() == 0 {
        acc
    } else {
        let prev = gathered(acc, page.drop_last());
        let t = page.last();
        if t.path@.len() > 0 && !track_keys(prev).contains(t.path@) {
            prev.push(t)
        } else {
            prev
        }
    }
}

/// The gathered tracks of a playlist walk hold each key once, and no empty key.
pub open spec fn walk_wf(tracks: Seq<Track>) -> bool {
    &&& track_keys(tracks).no_duplicates()
    &&& forall|k: int| 0 <= k < tracks.len() ==> (#[trigger] tracks[k]).path@.len() > 0
}

/// What to do with a page of a playlist's entries.
pub struct PageStep {
    /// The page's new tracks, to store and to file in the playlist.
    pub fresh: Vec<Track>,
    /// The playlist position of the first new track.
    pub start: usize,
    /// Whether the page brought new tracks to store and file.
    pub store: bool,
    /// Whether the shown list should be replaced by the longer gathered one.
    pub show: bool,
    /// The page to fetch next; `None` when the walk is complete.
    pub next: Option<String>,
}

/// A walk over a server playlist, page by page, that gathers its tracks
/// without repeats (a service may send a track again at a page boundary).
pub struct PlaylistWalk {
    pub tracks: Vec<Track>,
}

proof fn lemma_gathered_extends(acc: Seq<Track>, page: Seq<Track>)
    requires
        walk_wf(acc),
    ensures
        walk_wf(gathered(acc, page)),
        gathered(acc, page).len() >= acc.len(),
        gathered(acc, page).take(acc.len() as int) == acc,
    decreases page.len(),
{
    if page.len() > 0 {
        let prev = gathered(acc, page.drop_last());
        lemma_gathered_extends(acc, page.drop_last());
        let t = page.last();
        if t.path@.len() > 0 && !track_keys(prev).contains(t.path@) {
            let next = prev.push(t);
            assert(track_keys(next) =~= track_keys(prev).push(t.path@));
            assert(next.take(acc.len() as int) =~= prev.take(acc.len() as int));
            assert forall|i: int, j: int| 0 <= i < j < track_keys(next).len() implies
                track_keys(next)[i] != track_keys(next)[j] by {
                if j == track_keys(next).len() - 1 {
                    assert(track_keys(prev)[i] == track_keys(next)[i]);
                }
            }
        }
    }
}

impl PlaylistWalk {
    /// A walk that has gathered nothing yet.
    pub fn new() -> (r: PlaylistWalk)
        ensures
            r.tracks@.len() == 0,
            walk_wf(r.tracks@),
    {
        PlaylistWalk { tracks: Vec::new() }
    }

    /// Takes in a fetched page (`next` names the page after it). `shown_len`
    /// is the length of the list shown meanwhile, which only ever grows.
    pub fn take_page(&mut self, page: &[Track], next: Option<String>, shown_len: usize) -> (r: PageStep)
        requires
            walk_wf(old(self).tracks@),
        ensures
            walk_wf(final(self).tracks@),
            final(self).tracks@ == gathered(old(self).tracks@, page@),
            final(self).tracks@ == old(self).tracks@ + r.fresh@,
            r.start == old(self).tracks@.len(),
            r.store == (r.fresh@.len() > 0),
            r.show == (r.fresh@.len() > 0 && final(self).tracks@.len() > shown_len),
            r.next == next,
    {
        let ghost start_tracks = self.tracks@;
        let start = self.tracks.len();
        let mut keys: Vec<String> = Vec::new();
        let mut k: usize = 0;
        while k < self.tracks.len()
            invariant
                k <= self.tracks@.len(),
                self.tracks@ == start_tracks,
                keys@.len() == k,
                forall|i: int| 0 <= i < k ==> #[trigger] keys@[i]@ == self.tracks@[i].path@,
            decreases self.tracks@.len() - k,
        {
            keys.push(self.tracks[k].path.clone());
            k = k + 1;
        }
        assert(crate::remote::views(keys@) =~= track_keys(start_tracks));
        proof {
            lemma_gathered_extends(start_tracks, page@);
        }
        let mut fresh: Vec<Track> = Vec::new();
        let mut i: usize = 0;
        while i < page.len()
            invariant
                i <= page@.len(),
                start == start_tracks.len(),
                walk_wf(start_tracks),
                crate::remote::views(keys@) == track_keys(start_tracks + fresh@),
                start_tracks + fresh@ == gathered(start_tracks, page@.take(i as int)),
            decreases page@.len() - i,
        {
            assert(page@.take(i + 1).drop_last() =~= page@.take(i as int));
            let t = &page[i];
            if !t.path.as_str().is_empty() && !holds(&keys, t.path.as_str()) {
                let ghost before_keys = crate::remote::views(keys@);
                let ghost before = start_tracks + fresh@;
                fresh.push(t.duplicate());
                let key = t.path.clone();
                keys.push(key);
                assert(crate::remote::views(keys@) =~= before_keys.push(t.path@));
                assert(start_tracks + fresh@ =~= before.push(page@[i as int]));
                assert(track_keys(before.push(page@[i as int])) =~= track_keys(before).push(page@[i as int].path@));
            }
            i = i + 1;
        }
        assert(page@.take(page@.len() as int) =~= page@);
        let mut gathered_tracks = Vec::new();
        std::mem::swap(&mut gathered_tracks, &mut self.tracks);
        let mut j: usize = 0;
        while j < fresh.len()
            invariant
                j <= fresh@.len(),
                gathered_tracks@ == start_tracks + fresh@.take(j as int),
            decreases fresh@.len() - j,
        {
            gathered_tracks.push(fresh[j].duplicate());
            j = j + 1;
            assert(gathered_tracks@ =~= start_tracks + fresh@.take(j as int));
        }
        assert(fresh@.take(fresh@.len() as int) =~= fresh@);
        self.tracks = gathered_tracks;
        let show = fresh.len() > 0 && self.tracks.len() > shown_len;
        let store = fresh.len() > 0;
        PageStep { fresh, start, store, show, next }
    }
}

/// How a playlist walk ends.
pub enum WalkEnd {
    /// Every page came: show the gathered tracks, sweep the entries the server
    /// no longer lists, and stamp the time of the pull.
    Complete(Vec<Track>),
    /// A page could not be fetched: what is shown stays, nothing is swept and
    /// no pull is stamped, so the next visit walks again.
    Abandoned,
}

impl PlaylistWalk {
    /// The end of the walk, after the last page or after a failed fetch.
    pub fn finish(self, fetch_failed: bool) -> (r: WalkEnd)
        ensures
            fetch_failed ==> r is Abandoned,
            !fetch_failed ==> (r matches WalkEnd::Complete(t) && t@ == self.tracks@),
    {
        if fetch_failed {
            WalkEnd::Abandoned
        } else {
            WalkEnd::Complete(self.tracks)
        }
    }
}

} // verus!
