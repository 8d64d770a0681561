use vstd::prelude::*;
use crate::remote::{views, holds, set_membership, marked, is_server_path, has_prefix};
use crate::sorting::{flagged, select_flagged};
use crate::track::Track;

verus! {

/// What a click on a row's selection box does.
#[derive(Debug, Clone, Copy, PartialEq, Eq, Structural)]
pub enum SelectClick {
    /// Start selection mode as a long press would.
    LongPress,
    /// Set the row's selection to the value.
    Select(bool),
    /// Nothing to call.
    Ignore,
}

/// Outside selection mode, a click on an unselected row starts selection
/// (through the long-press handler when there is one, else by selecting the
/// row); otherwise the click flips the row's selection.
pub fn handle_select_click(
    is_selected: bool,
    is_selection_mode: bool,
    has_on_select: bool,
    has_on_long_press: bool,
) -> (r: SelectClick)
    ensures
        !is_selected && !is_selection_mode ==> r == (if has_on_long_press {
            SelectClick::LongPress
        } else if has_on_select {
            SelectClick::Select(true)
        } else {
            SelectClick::Ignore
        }),
        (is_selected || is_selection_mode) ==> r == (if has_on_select {
            SelectClick::Select(!is_selected)
        } else {
            SelectClick::Ignore
        }),
{
    if !is_selected && !is_selection_mode {
        if has_on_long_press {
            SelectClick::LongPress
        } else if has_on_select {
            SelectClick::Select(true)
        } else {
            SelectClick::Ignore
        }
    } else if has_on_select {
        SelectClick::Select(!is_selected)
    } else {
        SelectClick::Ignore
    }
}

/// The selection of a track list: whether selection mode is on, and the ids
/// (track paths) of the selected tracks.
#[derive(Debug, Clone)]
pub struct TrackSelection {
    pub selection_mode: bool,
    pub selected: Vec<String>,
}

impl TrackSelection {
    /// Whether the track with this id is selected.
    pub open spec fn has(&self, id: Seq<char>) -> bool {
        views(self.selected@).contains(id)
    }

    /// Outside selection mode nothing is selected.
    pub open spec fn wf(&self) -> bool {
        !self.selection_mode ==> self.selected@.len() == 0
    }

    /// No selection.
    pub fn new() -> (r: TrackSelection)
        ensures
            r.wf(),
            !r.selection_mode,
            r.selected@.len() == 0,
    {
        TrackSelection { selection_mode: false, selected: Vec::new() }
    }

    /// Whether every track of a non-empty list is selected.
    pub fn all_selected(&self, ids: &[String]) -> (r: bool)
        ensures
            r == (ids@.len() > 0 && forall|k: int| 0 <= k < ids@.len() ==> self.has(#[trigger] ids@[k]@)),
    {
        if ids.len() == 0 {
            return false;
        }
        let mut i: usize = 0;
        while i < ids.len()
            invariant
                i <= ids@.len(),
                forall|k: int| 0 <= k < i ==> self.has(#[trigger] ids@[k]@),
            decreases ids@.len() - i,
        {
            if !holds(&self.selected, ids[i].as_str()) {
                return false;
            }
            i = i + 1;
        }
        true
    }

    /// The header's box: selects every track and turns selection mode on, or
    /// clears the selection and turns it off.
    pub fn select_all(&mut self, ids: &[String], on: bool)
        requires
            old(self).wf(),
        ensures
            final(self).wf(),
            final(self).selection_mode == on,
            on ==> forall|x: Seq<char>| #[trigger] final(self).has(x) == views(ids@).contains(x),
            !on ==> final(self).selected@.len() == 0,
    {
        if on {
            let mut all: Vec<String> = Vec::new();
            let mut i: usize = 0;
            while i < ids.len()
                invariant
                    i <= ids@.len(),
                    all@.len() == i,
                    forall|k: int| 0 <= k < i ==> #[trigger] all@[k]@ == ids@[k]@,
                decreases ids@.len() - i,
            {
                let c = ids[i].clone();
                all.push(c);
                i = i + 1;
            }
            assert(views(all@) =~= views(ids@));
            self.selected = all;
            self.selection_mode = true;
        } else {
            self.selected = Vec::new();
            self.selection_mode = false;
        }
    }

    /// A long press on row `idx` starts selection mode with that track selected.
    pub fn long_press(&mut self, ids: &[String], idx: usize)
        requires
            old(self).wf(),
        ensures
            final(self).wf(),
            idx >= ids@.len() ==> *final(self) == *old(self),
            idx < ids@.len() ==> final(self).selection_mode
                && marked(views(old(self).selected@), views(final(self).selected@), ids@[idx as int]@, true),
    {
        if idx < ids.len() {
            self.selection_mode = true;
            set_membership(&mut self.selected, ids[idx].as_str(), true);
        }
    }

    /// The row's box: selecting a track turns selection mode on; deselecting
    /// the last selected track turns it off.
    pub fn select(&mut self, ids: &[String], idx: usize, on: bool)
        requires
            old(self).wf(),
        ensures
            final(self).wf(),
            idx >= ids@.len() ==> *final(self) == *old(self),
            idx < ids@.len() ==> marked(views(old(self).selected@), views(final(self).selected@), ids@[idx as int]@, on),
            idx < ids@.len() && on ==> final(self).selection_mode,
            idx < ids@.len() && !on ==> final(self).selection_mode == (old(self).selection_mode
                && final(self).selected@.len() > 0),
    {
        if idx < ids.len() {
            if on {
                self.selection_mode = true;
                set_membership(&mut self.selected, ids[idx].as_str(), true);
            } else {
                set_membership(&mut self.selected, ids[idx].as_str(), false);
                if self.selected.len() == 0 {
                    self.selection_mode = false;
                } else {
                    proof {
                        let x = views(self.selected@)[0];
                        assert(views(self.selected@).contains(x));
                    }
                }
            }
        }
    }

    /// Leaves selection mode and forgets the selection.
    pub fn cancel(&mut self)
        ensures
            final(self).wf(),
            !final(self).selection_mode,
            final(self).selected@.len() == 0,
    {
        self.selection_mode = false;
        self.selected = Vec::new();
    }

    fn selected_flags(&self, tracks: &[Track]) -> (r: Vec<bool>)
        ensures
            r@ == selection_flags(tracks@, *self),
    {
        let mut flags: Vec<bool> = Vec::new();
        let mut i: usize = 0;
        while i < tracks.len()
            invariant
                i <= tracks@.len(),
                flags@ == selection_flags(tracks@, *self).take(i as int),
            decreases tracks@.len() - i,
        {
            flags.push(holds(&self.selected, tracks[i].path.as_str()));
            i = i + 1;
            assert(flags@ =~= selection_flags(tracks@, *self).take(i as int));
        }
        assert(selection_flags(tracks@, *self).take(tracks@.len() as int) =~= selection_flags(tracks@, *self));
        flags
    }

    /// "Add to queue" on the selection bar: with something selected, hands
    /// out the selected tracks in list order and leaves selection mode; with
    /// nothing selected, does nothing.
    pub fn take_for_queue(&mut self, tracks: &[Track]) -> (r: Option<Vec<Track>>)
        requires
            old(self).wf(),
        ensures
            final(self).wf(),
            old(self).selected@.len() == 0 ==> r is None && *final(self) == *old(self),
            old(self).selected@.len() > 0 ==> (r matches Some(v) && v@ == flagged(tracks@, selection_flags(tracks@, *old(self)))),
            old(self).selected@.len() > 0 ==> !final(self).selection_mode && final(self).selected@.len() == 0,
    {
        if self.selected.len() == 0 {
            return None;
        }
        let flags = self.selected_flags(tracks);
        let chosen = select_flagged(tracks, flags.as_slice());
        self.cancel();
        Some(chosen)
    }

    /// "Delete" on the selection bar: the file paths of the selected local
    /// tracks, in list order; the selection is cleared.
    pub fn take_for_delete(&mut self, tracks: &[Track]) -> (r: Vec<String>)
        ensures
            final(self).wf(),
            !final(self).selection_mode,
            final(self).selected@.len() == 0,
            views(r@) == local_paths(flagged(tracks@, selection_flags(tracks@, *old(self)))),
            forall|k: int| 0 <= k < r@.len() ==> !is_server_path(#[trigger] r@[k]@),
            forall|k: int| 0 <= k < r@.len() ==> old(self).has(#[trigger] r@[k]@),
            forall|k: int|
                0 <= k < tracks@.len() && old(self).has(#[trigger] tracks@[k].path@) && !is_server_path(tracks@[k].path@)
                    ==> views(r@).contains(tracks@[k].path@),
    {
        let ghost before = *self;
        proof {
            lemma_delete_paths(tracks@, before);
        }
        let flags = self.selected_flags(tracks);
        let chosen = select_flagged(tracks, flags.as_slice());
        let mut paths: Vec<String> = Vec::new();
        let mut i: usize = 0;
        while i < chosen.len()
            invariant
                i <= chosen@.len(),
                views(paths@) == local_paths(chosen@.take(i as int)),
            decreases chosen@.len() - i,
        {
            assert(chosen@.take(i + 1).drop_last() =~= chosen@.take(i as int));
            let p = chosen[i].path.as_str();
            if !(has_prefix(p, "jellyfin:") || has_prefix(p, "subsonic:") || has_prefix(p, "custom:")) {
                paths.push(chosen[i].path.clone());
                assert(views(paths@) =~= local_paths(chosen@.take(i as int)).push(chosen@[i as int].path@));
            }
            i = i + 1;
        }
        assert(chosen@.take(chosen@.len() as int) =~= chosen@);
        proof {
            assert forall|k: int| 0 <= k < paths@.len() implies !is_server_path(#[trigger] paths@[k]@) && before.has(paths@[k]@) by {
                assert(views(paths@)[k] == paths@[k]@);
            }
        }
        self.cancel();
        paths
    }
}

/// The tracks kept by `flagged` are the flagged ones: each flagged track is
/// kept, and each kept track is a flagged one.
pub proof fn lemma_flagged_members(src: Seq<Track>, flags: Seq<bool>)
    requires
        flags.len() >= src.len(),
    ensures
        forall|k: int| 0 <= k < src.len() && flags[k] ==> flagged(src, flags).contains(#[trigger] src[k]),
        forall|m: int|
            0 <= m < flagged(src, flags).len() ==> exists|k: int|
                0 <= k < src.len() && flags[k] && src[k] == #[trigger] flagged(src, flags)[m],
    decreases src.len(),
{
    if src.len() > 0 {
        let prev = src.drop_last();
        lemma_flagged_members(prev, flags);
        let f = flagged(src, flags);
        assert forall|k: int| 0 <= k < src.len() && flags[k] implies f.contains(#[trigger] src[k]) by {
            if k < src.len() - 1 {
                assert(prev[k] == src[k]);
                let i = choose|i: int| 0 <= i < flagged(prev, flags).len() && flagged(prev, flags)[i] == prev[k];
                assert(f[i] == src[k]);
            } else {
                assert(f[f.len() - 1] == src[k]);
            }
        }
        assert forall|m: int| 0 <= m < f.len() implies exists|k: int|
            0 <= k < src.len() && flags[k] && src[k] == #[trigger] f[m] by {
            if m < flagged(prev, flags).len() {
                assert(f[m] == flagged(prev, flags)[m]);
                let k = choose|k: int| 0 <= k < prev.len() && flags[k] && prev[k] == flagged(prev, flags)[m];
                assert(src[k] == prev[k]);
            } else {
                assert(src[src.len() - 1] == f[m]);
            }
        }
    }
}

/// `local_paths` keeps exactly the paths of the tracks that are not server
/// items.
pub proof fn lemma_local_paths_members(s: Seq<Track>)
    ensures
        forall|m: int|
            0 <= m < local_paths(s).len() ==> !is_server_path(#[trigger] local_paths(s)[m]) && exists|j: int|
                0 <= j < s.len() && s[j].path@ == local_paths(s)[m],
        forall|j: int| 0 <= j < s.len() && !is_server_path(#[trigger] s[j].path@) ==> local_paths(s).contains(s[j].path@),
    decreases s.len(),
{
    if s.len() > 0 {
        let prev = s.drop_last();
        lemma_local_paths_members(prev);
        let lp = local_paths(s);
        let lq = local_paths(prev);
        assert forall|m: int| 0 <= m < lp.len() implies !is_server_path(#[trigger] lp[m]) && exists|j: int|
            0 <= j < s.len() && s[j].path@ == lp[m] by {
            if m < lq.len() {
                assert(lp[m] == lq[m]);
                let j = choose|j: int| 0 <= j < prev.len() && prev[j].path@ == lq[m];
                assert(s[j] == prev[j]);
            } else {
                assert(s[s.len() - 1].path@ == lp[m]);
            }
        }
        assert forall|j: int| 0 <= j < s.len() && !is_server_path(#[trigger] s[j].path@) implies lp.contains(s[j].path@) by {
            if j < s.len() - 1 {
                assert(prev[j] == s[j]);
                let i = choose|i: int| 0 <= i < lq.len() && lq[i] == prev[j].path@;
                assert(lp[i] == lq[i]);
            } else {
                assert(lp[lp.len() - 1] == s[j].path@);
            }
        }
    }
}

/// What "delete" hands out: never a server item, only selected tracks' paths,
/// and every selected local track's path.
pub proof fn lemma_delete_paths(tracks: Seq<Track>, sel: TrackSelection)
    ensures
        ({
            let out = local_paths(flagged(tracks, selection_flags(tracks, sel)));
            &&& forall|m: int| 0 <= m < out.len() ==> !is_server_path(#[trigger] out[m]) && sel.has(out[m])
            &&& forall|k: int|
                0 <= k < tracks.len() && sel.has(#[trigger] tracks[k].path@) && !is_server_path(tracks[k].path@)
                    ==> out.contains(tracks[k].path@)
        }),
{
    let flags = selection_flags(tracks, sel);
    let chosen = flagged(tracks, flags);
    lemma_flagged_members(tracks, flags);
    lemma_local_paths_members(chosen);
    let out = local_paths(chosen);
    assert forall|m: int| 0 <= m < out.len() implies !is_server_path(#[trigger] out[m]) && sel.has(out[m]) by {
        let j = choose|j: int| 0 <= j < chosen.len() && chosen[j].path@ == out[m];
        let k = choose|k: int| 0 <= k < tracks.len() && flags[k] && tracks[k] == chosen[j];
    }
    assert forall|k: int| 0 <= k < tracks.len() && sel.has(#[trigger] tracks[k].path@) && !is_server_path(tracks[k].path@)
        implies out.contains(tracks[k].path@) by {
        assert(flags[k]);
        let i = choose|i: int| 0 <= i < chosen.len() && chosen[i] == tracks[k];
        assert(!is_server_path(chosen[i].path@));
    }
}

/// Whether each track of a list is selected.
pub open spec fn selection_flags(tracks: Seq<Track>, sel: TrackSelection) -> Seq<bool> {
    Seq::new(tracks.len(), |k: int| sel.has(tracks[k].path@))
}

/// The file paths of the local tracks among `tracks`, in order.
pub open spec fn local_paths(tracks: Seq<Track>) -> Seq<Seq<char>>
    decreases tracks.len(),
{
    if tracks.len() == 0 {
        Seq::empty()
    } else if is_server_path(tracks.last().path@) {
        local_paths(tracks.drop_last())
    } else {
        local_paths(tracks.drop_last()).push(tracks.last().path@)
    }
}

} // verus!
