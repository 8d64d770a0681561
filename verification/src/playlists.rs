use vstd::prelude::*;
use crate::config::{default_device_id, is_v4_uuid, uuid_text};
use crate::remote::{views, whitespace, str_equal, holds};
use crate::text::chars_of;
use crate::metadata::{parse_u64, parsed_u64};
use crate::track::Track;

verus! {

/// A named group of playlists.
pub struct PlaylistFolder {
    pub id: String,
    pub name: String,
    pub playlist_ids: Vec<String>,
}

/// A folder as plain values.
pub struct FolderView {
    pub id: Seq<char>,
    pub name: Seq<char>,
    pub playlist_ids: Seq<Seq<char>>,
}

impl View for PlaylistFolder {
    type V = FolderView;

    open spec fn view(&self) -> FolderView {
        FolderView { id: self.id@, name: self.name@, playlist_ids: views(self.playlist_ids@) }
    }
}

/// The views of a list of folders.
pub open spec fn folder_views(v: Seq<PlaylistFolder>) -> Seq<FolderView> {
    v.map_values(|f: PlaylistFolder| f@)
}

/// `s` without its leading whitespace.
pub open spec fn trim_start(s: Seq<char>) -> Seq<char>
    decreases s.len(),
{
    if s.len() > 0 && whitespace(s[0]) {
        trim_start(s.drop_first())
    } else {
        s
    }
}

/// `s` without its trailing whitespace.
pub open spec fn trim_end(s: Seq<char>) -> Seq<char>
    decreases s.len(),
{
    if s.len() > 0 && whitespace(s.last()) {
        trim_end(s.drop_last())
    } else {
        s
    }
}

/// `s` without leading and trailing whitespace (`str::trim`).
pub open spec fn trimmed(s: Seq<char>) -> Seq<char> {
    trim_end(trim_start(s))
}

/// Removes leading and trailing whitespace.
pub fn trim(s: &str) -> (r: String)
    ensures
        r@ == trimmed(s@),
{
    let chars = chars_of(s);
    let n = chars.len();
    let mut start: usize = 0;
    assert(chars@.skip(0) =~= chars@);
    while start < n && crate::remote::is_whitespace_char(chars[start])
        invariant
            start <= n,
            n == chars@.len(),
            chars@ == s@,
            trim_start(s@) == trim_start(chars@.skip(start as int)),
        decreases n - start,
    {
        assert(chars@.skip(start as int).drop_first() =~= chars@.skip(start + 1));
        start = start + 1;
    }
    assert(trim_start(s@) == chars@.skip(start as int)) by {
        if start < n {
            assert(chars@.skip(start as int)[0] == chars@[start as int]);
        }
    }
    let mut end: usize = n;
    assert(chars@.skip(start as int) =~= chars@.subrange(start as int, n as int));
    while end > start && crate::remote::is_whitespace_char(chars[end - 1])
        invariant
            start <= end <= n,
            n == chars@.len(),
            trim_end(chars@.skip(start as int)) == trim_end(chars@.subrange(start as int, end as int)),
        decreases end - start,
    {
        assert(chars@.subrange(start as int, end as int).drop_last() =~= chars@.subrange(start as int, end - 1));
        end = end - 1;
    }
    assert(trim_end(chars@.subrange(start as int, end as int)) == chars@.subrange(start as int, end as int)) by {
        if end > start {
            assert(chars@.subrange(start as int, end as int).last() == chars@[end - 1]);
        }
    }
    let mut r = String::new();
    let mut k: usize = start;
    while k < end
        invariant
            start <= k <= end <= n,
            n == chars@.len(),
            r@ == chars@.subrange(start as int, k as int),
        decreases end - k,
    {
        crate::text::push_char(&mut r, chars[k]);
        k = k + 1;
        assert(r@ =~= chars@.subrange(start as int, k as int));
    }
    r
}

/// `ids` without any copy of `x`, in order.
pub open spec fn without(ids: Seq<Seq<char>>, x: Seq<char>) -> Seq<Seq<char>>
    decreases ids.len(),
{
    if ids.len() == 0 {
        Seq::empty()
    } else if ids.last() == x {
        without(ids.drop_last(), x)
    } else {
        without(ids.drop_last(), x).push(ids.last())
    }
}

/// `without` keeps exactly the other members.
pub proof fn lemma_without_contains(ids: Seq<Seq<char>>, x: Seq<char>, y: Seq<char>)
    ensures
        without(ids, x).contains(y) == (y != x && ids.contains(y)),
    decreases ids.len(),
{
    if ids.len() > 0 {
        lemma_without_contains(ids.drop_last(), x, y);
        let w = without(ids.drop_last(), x);
        if ids.drop_last().contains(y) {
            let k = choose|k: int| 0 <= k < ids.drop_last().len() && ids.drop_last()[k] == y;
            assert(ids[k] == y);
        }
        if ids.contains(y) && y != ids.last() {
            let k = choose|k: int| 0 <= k < ids.len() && ids[k] == y;
            assert(ids.drop_last()[k] == y);
        }
        if ids.last() != x {
            if w.push(ids.last()).contains(y) && y != ids.last() {
                let k = choose|k: int| 0 <= k < w.push(ids.last()).len() && w.push(ids.last())[k] == y;
                assert(w[k] == y);
            }
            if w.contains(y) {
                let k = choose|k: int| 0 <= k < w.len() && w[k] == y;
                assert(w.push(ids.last())[k] == y);
            }
            assert(w.push(ids.last())[w.len() as int] == ids.last());
        }
        assert(ids[ids.len() - 1] == ids.last());
    }
}

/// The position of the first folder with id `id`, or -1.
pub open spec fn first_with_id(folders: Seq<FolderView>, id: Seq<char>) -> int
    decreases folders.len(),
{
    if folders.len() == 0 {
        -1
    } else if folders[0].id == id {
        0
    } else {
        let r = first_with_id(folders.drop_first(), id);
        if r < 0 {
            -1
        } else {
            r + 1
        }
    }
}

/// `first_with_id` finds the first folder with the id, or shows there is none.
pub proof fn lemma_first_with_id(folders: Seq<FolderView>, id: Seq<char>)
    ensures
        -1 <= first_with_id(folders, id) < folders.len(),
        first_with_id(folders, id) >= 0 ==> folders[first_with_id(folders, id)].id == id,
        forall|k: int| 0 <= k < folders.len() && (first_with_id(folders, id) < 0 || k < first_with_id(folders, id))
            ==> folders[k].id != id,
    decreases folders.len(),
{
    if folders.len() > 0 && folders[0].id != id {
        lemma_first_with_id(folders.drop_first(), id);
        assert forall|k: int| 0 <= k < folders.len() && (first_with_id(folders, id) < 0 || k < first_with_id(folders, id))
            implies folders[k].id != id by {
            if k > 0 {
                assert(folders[k] == folders.drop_first()[k - 1]);
            }
        }
    }
}

/// The folders after playlist `pid` was filed under folder `fid`: taken out of
/// every folder, then added to the first folder with that id.
pub open spec fn moved(folders: Seq<FolderView>, pid: Seq<char>, fid: Seq<char>) -> Seq<FolderView> {
    let target = first_with_id(folders, fid);
    Seq::new(folders.len(), |k: int| FolderView {
        id: folders[k].id,
        name: folders[k].name,
        playlist_ids: if k == target {
            without(folders[k].playlist_ids, pid).push(pid)
        } else {
            without(folders[k].playlist_ids, pid)
        },
    })
}

/// A copy of `ids` without `x`.
fn copy_without(ids: &Vec<String>, x: &str) -> (r: Vec<String>)
    ensures
        views(r@) == without(views(ids@), x@),
{
    let mut r: Vec<String> = Vec::new();
    let mut i: usize = 0;
    while i < ids.len()
        invariant
            i <= ids@.len(),
            views(r@) == without(views(ids@).take(i as int), x@),
        decreases ids@.len() - i,
    {
        assert(views(ids@).take(i + 1).drop_last() =~= views(ids@).take(i as int));
        assert(views(ids@).take(i + 1).last() == ids@[i as int]@);
        if !str_equal(ids[i].as_str(), x) {
            let ghost before = r@;
            r.push(ids[i].clone());
            assert(views(r@) =~= views(before).push(ids@[i as int]@));
        }
        i = i + 1;
    }
    assert(views(ids@).take(ids@.len() as int) =~= views(ids@));
    r
}

/// Files playlist `playlist_id` under folder `folder_id`, taking it out of
/// any other folder.
pub fn move_playlist_to_folder(folders: &mut Vec<PlaylistFolder>, playlist_id: &str, folder_id: &str)
    ensures
        folder_views(final(folders)@) == moved(folder_views(old(folders)@), playlist_id@, folder_id@),
{
    let ghost start = folder_views(folders@);
    let mut out: Vec<PlaylistFolder> = Vec::new();
    let mut placed = false;
    let mut k: usize = 0;
    proof {
        lemma_first_with_id(start, folder_id@);
    }
    while k < folders.len()
        invariant
            k <= folders@.len(),
            start == folder_views(folders@),
            -1 <= first_with_id(start, folder_id@) < start.len(),
            first_with_id(start, folder_id@) >= 0 ==> start[first_with_id(start, folder_id@)].id == folder_id@,
            forall|j: int| 0 <= j < start.len() && (first_with_id(start, folder_id@) < 0 || j < first_with_id(start, folder_id@))
                ==> start[j].id != folder_id@,
            placed == (0 <= first_with_id(start, folder_id@) < k),
            folder_views(out@) == moved(start, playlist_id@, folder_id@).take(k as int),
        decreases folders@.len() - k,
    {
        let f = &folders[k];
        let mut ids = copy_without(&f.playlist_ids, playlist_id);
        let is_target = !placed && f.id == String::from_str(folder_id);
        assert(start[k as int] == f@);
        if is_target {
            let ghost before = ids@;
            ids.push(String::from_str(playlist_id));
            assert(views(ids@) =~= views(before).push(playlist_id@));
            placed = true;
        }
        let ghost old_out = out@;
        out.push(PlaylistFolder { id: f.id.clone(), name: f.name.clone(), playlist_ids: ids });
        assert(folder_views(out@) =~= folder_views(old_out).push(out@[k as int]@));
        assert(folder_views(out@) =~= moved(start, playlist_id@, folder_id@).take(k + 1));
        k = k + 1;
    }
    assert(moved(start, playlist_id@, folder_id@).take(k as int) =~= moved(start, playlist_id@, folder_id@));
    *folders = out;
}

/// After a move the playlist sits in exactly one folder, the first with the
/// chosen id (in none when no folder has it), and every other playlist stays
/// where it was.
pub proof fn lemma_moved_playlist_in_one_folder(folders: Seq<FolderView>, pid: Seq<char>, fid: Seq<char>)
    ensures
        moved(folders, pid, fid).len() == folders.len(),
        forall|k: int| 0 <= k < folders.len() ==> #[trigger] moved(folders, pid, fid)[k].playlist_ids.contains(pid)
            == (k == first_with_id(folders, fid)),
        forall|k: int, x: Seq<char>| 0 <= k < folders.len() && x != pid ==> #[trigger] moved(folders, pid, fid)[k].playlist_ids.contains(x)
            == folders[k].playlist_ids.contains(x),
{
    let m = moved(folders, pid, fid);
    assert forall|k: int| 0 <= k < folders.len() implies #[trigger] m[k].playlist_ids.contains(pid)
        == (k == first_with_id(folders, fid)) by {
        lemma_without_contains(folders[k].playlist_ids, pid, pid);
        let w = without(folders[k].playlist_ids, pid);
        if k == first_with_id(folders, fid) {
            assert(w.push(pid)[w.len() as int] == pid);
        }
    }
    assert forall|k: int, x: Seq<char>| 0 <= k < folders.len() && x != pid implies #[trigger] m[k].playlist_ids.contains(x)
        == folders[k].playlist_ids.contains(x) by {
        lemma_without_contains(folders[k].playlist_ids, pid, x);
        let w = without(folders[k].playlist_ids, pid);
        if k == first_with_id(folders, fid) {
            if w.push(pid).contains(x) {
                let j = choose|j: int| 0 <= j < w.push(pid).len() && w.push(pid)[j] == x;
                assert(w[j] == x);
            }
            if w.contains(x) {
                let j = choose|j: int| 0 <= j < w.len() && w[j] == x;
                assert(w.push(pid)[j] == x);
            }
        }
    }
}

/// Every folder with playlist `pid` taken out.
pub open spec fn all_without(folders: Seq<FolderView>, pid: Seq<char>) -> Seq<FolderView> {
    Seq::new(folders.len(), |k: int| FolderView {
        id: folders[k].id,
        name: folders[k].name,
        playlist_ids: without(folders[k].playlist_ids, pid),
    })
}

/// Creates a folder named `name` (trimmed) holding playlist `playlist_id`,
/// taking the playlist out of the other folders. A blank name creates nothing.
pub fn create_folder_with_playlist(folders: &mut Vec<PlaylistFolder>, name: &str, playlist_id: &str, random: [u8; 16]) -> (r: bool)
    ensures
        r == (trimmed(name@).len() > 0),
        !r ==> folder_views(final(folders)@) == folder_views(old(folders)@),
        r ==> {
            let n = folder_views(final(folders)@);
            &&& n.len() == old(folders)@.len() + 1
            &&& n.take(old(folders)@.len() as int) == all_without(folder_views(old(folders)@), playlist_id@)
            &&& n.last().id == uuid_text(random@)
            &&& is_v4_uuid(n.last().id)
            &&& n.last().name == trimmed(name@)
            &&& n.last().playlist_ids == seq![playlist_id@]
        },
{
    let name = trim(name);
    if name.as_str().is_empty() {
        return false;
    }
    let new_id = default_device_id(random);
    let ghost start = folder_views(folders@);
    let mut out: Vec<PlaylistFolder> = Vec::new();
    let mut k: usize = 0;
    while k < folders.len()
        invariant
            k <= folders@.len(),
            start == folder_views(folders@),
            folder_views(out@) == all_without(start, playlist_id@).take(k as int),
        decreases folders@.len() - k,
    {
        let f = &folders[k];
        let ids = copy_without(&f.playlist_ids, playlist_id);
        assert(start[k as int] == f@);
        let ghost old_out = out@;
        out.push(PlaylistFolder { id: f.id.clone(), name: f.name.clone(), playlist_ids: ids });
        assert(folder_views(out@) =~= folder_views(old_out).push(out@[k as int]@));
        assert(folder_views(out@) =~= all_without(start, playlist_id@).take(k + 1));
        k = k + 1;
    }
    let mut ids: Vec<String> = Vec::new();
    ids.push(String::from_str(playlist_id));
    assert(views(ids@) =~= seq![playlist_id@]);
    let ghost before = out@;
    out.push(PlaylistFolder { id: new_id, name, playlist_ids: ids });
    assert(folder_views(out@) =~= folder_views(before).push(out@[k as int]@));
    assert(folder_views(out@).take(k as int) =~= folder_views(before));
    assert(all_without(start, playlist_id@).take(k as int) =~= all_without(start, playlist_id@));
    *folders = out;
    true
}

/// A playlist synced from the server less than fifteen minutes ago is not
/// pulled again; one never pulled (stamp 0) always is.
pub fn recently_pulled(last_pull: u64, now: u64) -> (r: bool)
    ensures
        r == (last_pull != 0 && last_pull <= now && now - last_pull < 15 * 60),
{
    last_pull != 0 && last_pull <= now && now - last_pull < 15 * 60
}

/// The time of the last pull from its stored stamp (seconds in decimal);
/// 0, "never", when there is none or it does not read as a number.
pub fn last_pull_of(stamp: Option<&str>) -> (r: u64)
    ensures
        r == match stamp {
            Some(s) => match parsed_u64(s@) {
                Some(v) => v,
                None => 0u64,
            },
            None => 0u64,
        },
{
    match stamp {
        Some(s) => match parse_u64(s) {
            Some(v) => v,
            None => 0,
        },
        None => 0,
    }
}

/// What moving a playlist entry asks of the server.
pub struct ReorderRequest {
    /// The playlist's entry references in their new order.
    pub refs: Vec<String>,
    /// The track that was moved.
    pub moved: Track,
    /// Its new position.
    pub position: usize,
}

/// Moves the playlist entry at `idx` one place up in the shown list, and,
/// when the stored playlist has that entry too, returns the server request
/// with the stored references swapped the same way. Nothing moves at the top
/// or when the source cannot reorder.
pub fn move_entry_up(tracks: &mut Vec<Track>, refs: Option<Vec<String>>, idx: usize, can_reorder: bool) -> (r: Option<ReorderRequest>)
    requires
        idx > 0 && can_reorder ==> idx < old(tracks)@.len(),
    ensures
        (idx == 0 || !can_reorder) ==> r is None && final(tracks)@ == old(tracks)@,
        (idx > 0 && can_reorder) ==> {
            &&& final(tracks)@ == old(tracks)@.update(idx - 1, old(tracks)@[idx as int]).update(idx as int, old(tracks)@[idx - 1])
            &&& match refs {
                Some(v) => if idx < v@.len() {
                    r matches Some(req) && req.refs@ == v@.update(idx - 1, v@[idx as int]).update(idx as int, v@[idx - 1])
                        && req.moved == old(tracks)@[idx as int] && req.position == idx - 1
                } else {
                    r is None
                },
                None => r is None,
            }
        },
{
    if idx == 0 || !can_reorder {
        return None;
    }
    let upper = tracks[idx - 1].duplicate();
    let lower = tracks[idx].duplicate();
    tracks.set(idx - 1, lower);
    tracks.set(idx, upper);
    match refs {
        None => None,
        Some(v) => {
            if idx >= v.len() {
                return None;
            }
            let mut v = v;
            let a = v[idx - 1].clone();
            let b = v[idx].clone();
            v.set(idx - 1, b);
            v.set(idx, a);
            Some(ReorderRequest { refs: v, moved: tracks[idx - 1].duplicate(), position: idx - 1 })
        },
    }
}

/// Moves the playlist entry at `idx` one place down (see `move_entry_up`).
pub fn move_entry_down(tracks: &mut Vec<Track>, refs: Option<Vec<String>>, idx: usize, can_reorder: bool) -> (r: Option<ReorderRequest>)
    ensures
        (idx + 1 >= old(tracks)@.len() || !can_reorder) ==> r is None && final(tracks)@ == old(tracks)@,
        (idx + 1 < old(tracks)@.len() && can_reorder) ==> {
            &&& final(tracks)@ == old(tracks)@.update(idx as int, old(tracks)@[idx + 1]).update(idx + 1, old(tracks)@[idx as int])
            &&& match refs {
                Some(v) => if idx + 1 < v@.len() {
                    r matches Some(req) && req.refs@ == v@.update(idx as int, v@[idx + 1]).update(idx + 1, v@[idx as int])
                        && req.moved == old(tracks)@[idx as int] && req.position == idx + 1
                } else {
                    r is None
                },
                None => r is None,
            }
        },
{
    let len = tracks.len();
    if idx >= len || idx + 1 >= len || !can_reorder {
        return None;
    }
    let upper = tracks[idx].duplicate();
    let lower = tracks[idx + 1].duplicate();
    tracks.set(idx, lower);
    tracks.set(idx + 1, upper);
    match refs {
        None => None,
        Some(v) => {
            if idx + 1 >= v.len() {
                return None;
            }
            let mut v = v;
            let a = v[idx].clone();
            let b = v[idx + 1].clone();
            v.set(idx, b);
            v.set(idx + 1, a);
            Some(ReorderRequest { refs: v, moved: tracks[idx + 1].duplicate(), position: idx + 1 })
        },
    }
}

} // verus!
