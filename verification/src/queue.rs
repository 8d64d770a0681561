use vstd::prelude::*;
use crate::track::Track;

verus! {

/// The play queue: tracks in insertion order, and, while shuffle is on, the
/// order in which they play (`shuffle_order` lists queue positions).
pub struct QueueState {
    pub queue: Vec<Track>,
    pub shuffle: bool,
    pub shuffle_order: Vec<usize>,
    /// The position being played: in `shuffle_order` while shuffling, in `queue` otherwise.
    pub current_queue_index: usize,
    /// Queue positions played before.
    pub history: Vec<usize>,
}

/// A queue as plain values.
pub struct QueueModel {
    pub queue: Seq<Track>,
    pub shuffle: bool,
    pub shuffle_order: Seq<usize>,
    pub current_queue_index: usize,
    pub history: Seq<usize>,
}

impl View for QueueState {
    type V = QueueModel;

    open spec fn view(&self) -> QueueModel {
        QueueModel {
            queue: self.queue@,
            shuffle: self.shuffle,
            shuffle_order: self.shuffle_order@,
            current_queue_index: self.current_queue_index,
            history: self.history@,
        }
    }
}

/// A queue position after `count` tracks were inserted at position `at`.
pub open spec fn shifted(v: usize, at: usize, count: nat) -> int {
    if v >= at {
        v + count
    } else {
        v as int
    }
}

/// Every position at or after `at` moved on by `count`.
pub open spec fn shift_all(s: Seq<usize>, at: usize, count: nat) -> Seq<usize> {
    Seq::new(s.len(), |k: int| shifted(s[k], at, count) as usize)
}

/// The positions `start, start + 1, ..., start + count - 1`.
pub open spec fn run_from(start: usize, count: nat) -> Seq<usize> {
    Seq::new(count, |i: int| (start + i) as usize)
}

/// `ts` placed at `at` in `s`.
pub open spec fn spliced<T>(s: Seq<T>, at: int, ts: Seq<T>) -> Seq<T> {
    s.take(at) + ts + s.skip(at)
}

/// The smaller of two numbers.
pub open spec fn min_usize(a: usize, b: usize) -> usize {
    if a < b {
        a
    } else {
        b
    }
}

/// The queue position that a shuffled insertion at visual position `visual` targets.
pub open spec fn physical_target(m: QueueModel, visual: usize) -> usize {
    if visual < m.shuffle_order.len() {
        m.shuffle_order[visual as int]
    } else {
        m.queue.len() as usize
    }
}

/// No position overflows when `count` tracks are inserted: the queue's
/// length, and, while shuffling, the positions that move on.
pub open spec fn insert_fits(m: QueueModel, visual: usize, count: nat) -> bool {
    let p = physical_target(m, visual);
    &&& m.queue.len() + count <= usize::MAX
    &&& m.shuffle ==> {
        &&& p + count <= usize::MAX
        &&& visual <= m.current_queue_index ==> m.current_queue_index + count <= usize::MAX
        &&& forall|k: int| 0 <= k < m.shuffle_order.len() && m.shuffle_order[k] >= p ==> m.shuffle_order[k] + count <= usize::MAX
        &&& forall|k: int| 0 <= k < m.history.len() && m.history[k] >= p ==> m.history[k] + count <= usize::MAX
    }
}

/// The queue after `ts` was dropped at visual position `insert_at`.
pub open spec fn inserted(m: QueueModel, insert_at: usize, ts: Seq<Track>) -> QueueModel {
    let count = ts.len();
    if count == 0 {
        m
    } else if m.shuffle {
        let p = physical_target(m, insert_at);
        let shifted_order = shift_all(m.shuffle_order, p, count);
        QueueModel {
            queue: spliced(m.queue, min_usize(p, m.queue.len() as usize) as int, ts),
            shuffle: true,
            shuffle_order: spliced(
                shifted_order,
                min_usize(insert_at, shifted_order.len() as usize) as int,
                run_from(p, count),
            ),
            current_queue_index: if insert_at <= m.current_queue_index {
                (m.current_queue_index + count) as usize
            } else {
                m.current_queue_index
            },
            history: shift_all(m.history, p, count),
        }
    } else {
        QueueModel {
            queue: spliced(m.queue, min_usize(insert_at, m.queue.len() as usize) as int, ts),
            ..m
        }
    }
}

/// Moves on by `count` every position at or after `at`.
pub fn shift_indices_at_or_after(indices: &mut Vec<usize>, at: usize, count: usize)
    requires
        forall|k: int| 0 <= k < old(indices)@.len() && old(indices)@[k] >= at ==> old(indices)@[k] + count <= usize::MAX,
    ensures
        final(indices)@ == shift_all(old(indices)@, at, count as nat),
{
    let ghost start = indices@;
    let mut k: usize = 0;
    while k < indices.len()
        invariant
            k <= indices@.len(),
            indices@.len() == start.len(),
            forall|j: int| 0 <= j < start.len() && start[j] >= at ==> start[j] + count <= usize::MAX,
            forall|j: int| 0 <= j < k ==> indices@[j] == shifted(start[j], at, count as nat),
            forall|j: int| k <= j < start.len() ==> indices@[j] == start[j],
        decreases indices@.len() - k,
    {
        let v = indices[k];
        assert(v == start[k as int]);
        if v >= at {
            indices.set(k, v + count);
        }
        k = k + 1;
    }
    assert(indices@ =~= shift_all(start, at, count as nat));
}

/// Puts `tracks` into `queue` at `at`, keeping their order.
fn splice_tracks(queue: &mut Vec<Track>, at: usize, tracks: Vec<Track>)
    requires
        at <= old(queue)@.len(),
    ensures
        final(queue)@ == spliced(old(queue)@, at as int, tracks@),
{
    let ghost start = queue@;
    let ghost all = tracks@;
    let mut rest = tracks;
    while rest.len() > 0
        invariant
            at <= start.len(),
            rest@.len() <= all.len(),
            rest@ == all.take(rest@.len() as int),
            queue@ == start.take(at as int) + all.skip(rest@.len() as int) + start.skip(at as int),
        decreases rest@.len(),
    {
        let ghost before = queue@;
        let last = rest.pop().unwrap();
        queue.insert(at, last);
        assert(all.skip(rest@.len() as int) =~= seq![last] + all.skip(rest@.len() as int + 1));
        assert(rest@ =~= all.take(rest@.len() as int));
        assert(queue@ =~= start.take(at as int) + all.skip(rest@.len() as int) + start.skip(at as int));
    }
    assert(all.skip(0) =~= all);
}

/// Inserts positions `start, start + 1, ...` (`count` of them) at `at`.
fn splice_run(order: &mut Vec<usize>, at: usize, start: usize, count: usize)
    requires
        at <= old(order)@.len(),
        start + count <= usize::MAX,
    ensures
        final(order)@ == spliced(old(order)@, at as int, run_from(start, count as nat)),
{
    let ghost first = order@;
    let mut i: usize = 0;
    while i < count
        invariant
            i <= count,
            at <= first.len(),
            start + count <= usize::MAX,
            order@ == first.take(at as int) + run_from(start, i as nat) + first.skip(at as int),
            order@.len() == first.len() + i,
        decreases count - i,
    {
        let cur_len = order.len();
        assert(at + i <= cur_len);
        order.insert(at + i, start + i);
        assert(run_from(start, (i + 1) as nat) =~= run_from(start, i as nat).push((start + i) as usize));
        assert(order@ =~= first.take(at as int) + run_from(start, (i + 1) as nat) + first.skip(at as int));
        i = i + 1;
    }
}

/// Drops `tracks` into the queue at visual position `insert_at` (past the end
/// appends). While shuffling, the tracks go into the queue before the track
/// shown at `insert_at`, play at `insert_at` in the shuffled order, and the
/// positions kept elsewhere (the shuffled order, the current position, the
/// history) follow the move.
pub fn insert_queue_tracks(state: &mut QueueState, insert_at: usize, tracks: Vec<Track>)
    requires
        insert_fits(old(state)@, insert_at, tracks@.len()),
    ensures
        final(state)@ == inserted(old(state)@, insert_at, tracks@),
{
    if tracks.len() == 0 {
        return;
    }
    let count = tracks.len();
    let ghost m = state@;
    if state.shuffle {
        let visual_insert = insert_at;
        let physical_insert = if visual_insert < state.shuffle_order.len() {
            state.shuffle_order[visual_insert]
        } else {
            state.queue.len()
        };
        let insert_pos = if physical_insert < state.queue.len() {
            physical_insert
        } else {
            state.queue.len()
        };
        splice_tracks(&mut state.queue, insert_pos, tracks);
        shift_indices_at_or_after(&mut state.shuffle_order, physical_insert, count);
        let order_pos = if visual_insert < state.shuffle_order.len() {
            visual_insert
        } else {
            state.shuffle_order.len()
        };
        splice_run(&mut state.shuffle_order, order_pos, physical_insert, count);
        let current_idx = state.current_queue_index;
        if visual_insert <= current_idx {
            state.current_queue_index = current_idx + count;
        }
        shift_indices_at_or_after(&mut state.history, physical_insert, count);
    } else {
        let at = if insert_at < state.queue.len() {
            insert_at
        } else {
            state.queue.len()
        };
        splice_tracks(&mut state.queue, at, tracks);
    }
}

/// The shuffled order lists every queue position exactly once.
pub open spec fn shuffle_valid(m: QueueModel) -> bool {
    &&& m.shuffle_order.len() == m.queue.len()
    &&& forall|k: int| 0 <= k < m.shuffle_order.len() ==> m.shuffle_order[k] < m.queue.len()
    &&& forall|a: int, b: int|
        0 <= a < b < m.shuffle_order.len() ==> m.shuffle_order[a] != m.shuffle_order[b]
}

/// The tracks in the order they play.
pub open spec fn play_sequence(m: QueueModel) -> Seq<Track> {
    if m.shuffle {
        Seq::new(m.shuffle_order.len(), |k: int| m.queue[m.shuffle_order[k] as int])
    } else {
        m.queue
    }
}

/// Dropping tracks into the queue puts them, in their order, at the drop
/// position of the play order, and leaves the rest of the play order as it
/// was; while shuffling, the shuffled order stays a permutation of the queue.
#[verifier::rlimit(60)]
#[verifier::spinoff_prover]
pub proof fn lemma_insert_plays_at_drop_position(m: QueueModel, insert_at: usize, ts: Seq<Track>)
    requires
        m.shuffle ==> shuffle_valid(m),
        insert_fits(m, insert_at, ts.len()),
    ensures
        inserted(m, insert_at, ts).shuffle == m.shuffle,
        m.shuffle ==> shuffle_valid(inserted(m, insert_at, ts)),
        play_sequence(inserted(m, insert_at, ts)) == spliced(
            play_sequence(m),
            min_usize(insert_at, play_sequence(m).len() as usize) as int,
            ts,
        ),
{
    let n = inserted(m, insert_at, ts);
    let c = ts.len();
    if c == 0 {
        assert(spliced(play_sequence(m), min_usize(insert_at, play_sequence(m).len() as usize) as int, ts)
            =~= play_sequence(m));
    } else if m.shuffle {
        let p = physical_target(m, insert_at);
        let q = m.queue;
        let o = m.shuffle_order;
        let sh = shift_all(o, p, c);
        let v = min_usize(insert_at, sh.len() as usize) as int;
        assert(p <= q.len());
        assert(n.queue == spliced(q, p as int, ts));
        let run = run_from(p, c);
        assert(n.shuffle_order == spliced(sh, v, run));
        assert(n.shuffle_order.len() == n.queue.len());
        assert forall|k: int| 0 <= k < n.shuffle_order.len() implies #[trigger] n.shuffle_order[k]
            < n.queue.len() && n.queue[n.shuffle_order[k] as int] == spliced(
            play_sequence(m),
            v,
            ts,
        )[k] by {
            if k < v {
                assert(n.shuffle_order[k] == sh[k]);
            } else if k < v + c {
                assert(n.shuffle_order[k] == run[k - v]);
            } else {
                assert(n.shuffle_order[k] == sh[k - c]);
            }
        }
        assert forall|a: int, b: int|
            0 <= a < b < n.shuffle_order.len() implies n.shuffle_order[a] != n.shuffle_order[b] by {
            if a < v {
                assert(n.shuffle_order[a] == sh[a]);
            } else if a < v + c {
                assert(n.shuffle_order[a] == run[a - v]);
            } else {
                assert(n.shuffle_order[a] == sh[a - c]);
            }
            if b < v {
                assert(n.shuffle_order[b] == sh[b]);
            } else if b < v + c {
                assert(n.shuffle_order[b] == run[b - v]);
            } else {
                assert(n.shuffle_order[b] == sh[b - c]);
            }
        }
        assert(play_sequence(n) =~= spliced(play_sequence(m), v, ts));
    } else {
    }
}

/// The total length of the tracks that have one, adding up in order and
/// stopping at `u64::MAX`; endless streams (`u64::MAX`) are left out.
pub open spec fn playable_total(s: Seq<Track>) -> int
    decreases s.len(),
{
    if s.len() == 0 {
        0
    } else {
        let prev = playable_total(s.drop_last());
        let d = s.last().duration;
        if d == u64::MAX {
            prev
        } else if prev + d > u64::MAX {
            u64::MAX as int
        } else {
            prev + d
        }
    }
}

/// The length of a queue as the summary shows it.
pub fn queue_duration(items: &[Track]) -> (r: u64)
    ensures
        r == playable_total(items@),
{
    let mut total: u64 = 0;
    let mut i: usize = 0;
    while i < items.len()
        invariant
            i <= items@.len(),
            total == playable_total(items@.take(i as int)),
        decreases items@.len() - i,
    {
        assert(items@.take(i + 1).drop_last() =~= items@.take(i as int));
        let d = items[i].duration;
        if d != u64::MAX {
            total = total.saturating_add(d);
        }
        i = i + 1;
    }
    assert(items@.take(items@.len() as int) =~= items@);
    total
}

/// A radio stream has no end; its duration is `u64::MAX`.
pub fn is_radio_track(track: Option<&Track>) -> (r: bool)
    ensures
        r == (track matches Some(t) && t.duration == u64::MAX),
{
    match track {
        Some(t) => t.duration == u64::MAX,
        None => false,
    }
}

/// The tracks at the listed queue positions, skipping positions past the end.
pub open spec fn tracks_at(queue: Seq<Track>, order: Seq<usize>) -> Seq<Track>
    decreases order.len(),
{
    if order.len() == 0 {
        Seq::empty()
    } else {
        let prev = tracks_at(queue, order.drop_last());
        let qi = order.last();
        if qi < queue.len() {
            prev.push(queue[qi as int])
        } else {
            prev
        }
    }
}

/// The queue as the side panel lists it: in play order while shuffling.
pub open spec fn listed_queue(m: QueueModel) -> Seq<Track> {
    if m.shuffle {
        tracks_at(m.queue, m.shuffle_order)
    } else {
        m.queue
    }
}

/// Copies of the tracks at the listed positions.
fn copy_tracks_at(queue: &Vec<Track>, order: &[usize]) -> (r: Vec<Track>)
    ensures
        r@ == tracks_at(queue@, order@),
{
    let mut r: Vec<Track> = Vec::new();
    let mut i: usize = 0;
    while i < order.len()
        invariant
            i <= order@.len(),
            r@ == tracks_at(queue@, order@.take(i as int)),
        decreases order@.len() - i,
    {
        assert(order@.take(i + 1).drop_last() =~= order@.take(i as int));
        let qi = order[i];
        if qi < queue.len() {
            r.push(queue[qi].duplicate());
        }
        i = i + 1;
    }
    assert(order@.take(order@.len() as int) =~= order@);
    r
}

/// The queue positions `0..n`.
fn positions_upto(n: usize) -> (r: Vec<usize>)
    ensures
        r@ == Seq::new(n as nat, |k: int| k as usize),
{
    let mut r: Vec<usize> = Vec::new();
    let mut i: usize = 0;
    while i < n
        invariant
            i <= n,
            r@ == Seq::new(i as nat, |k: int| k as usize),
        decreases n - i,
    {
        r.push(i);
        i = i + 1;
        assert(r@ =~= Seq::new(i as nat, |k: int| k as usize));
    }
    r
}

/// Every position of a sequence, in order, picks the sequence itself.
pub proof fn lemma_tracks_at_all(queue: Seq<Track>, n: nat)
    requires
        n <= queue.len(),
        n <= usize::MAX,
    ensures
        tracks_at(queue, Seq::new(n, |k: int| k as usize)) == queue.take(n as int),
    decreases n,
{
    if n == 0 {
        assert(queue.take(0) =~= Seq::<Track>::empty());
    } else {
        let all = Seq::new(n, |k: int| k as usize);
        assert(all.last() == (n - 1) as usize);
        assert(all.drop_last() =~= Seq::new((n - 1) as nat, |k: int| k as usize));
        lemma_tracks_at_all(queue, (n - 1) as nat);
        assert(queue.take(n as int) =~= queue.take(n - 1).push(queue[n - 1]));
    }
}

/// The queue the side panel lists: the shuffled order while shuffling,
/// the queue order otherwise.
pub fn listed_queue_tracks(state: &QueueState) -> (r: Vec<Track>)
    ensures
        r@ == listed_queue(state@),
{
    if state.shuffle {
        copy_tracks_at(&state.queue, state.shuffle_order.as_slice())
    } else {
        let all = positions_upto(state.queue.len());
        proof {
            lemma_tracks_at_all(state.queue@, state.queue@.len());
            assert(state.queue@.take(state.queue@.len() as int) =~= state.queue@);
        }
        copy_tracks_at(&state.queue, all.as_slice())
    }
}

/// The listed positions that exist in the queue, with their tracks.
pub open spec fn indexed_tracks_at(queue: Seq<Track>, order: Seq<usize>) -> Seq<(usize, Track)>
    decreases order.len(),
{
    if order.len() == 0 {
        Seq::empty()
    } else {
        let prev = indexed_tracks_at(queue, order.drop_last());
        let qi = order.last();
        if qi < queue.len() {
            prev.push((qi, queue[qi as int]))
        } else {
            prev
        }
    }
}

/// The positions `from, from + 1, ..., to - 1`.
pub open spec fn position_range(from: usize, to: usize) -> Seq<usize> {
    Seq::new(if from <= to { (to - from) as nat } else { 0 }, |k: int| (from + k) as usize)
}

/// The positions the full-screen player lists before the current track, and
/// those it lists as coming next. While shuffling both lists are the shuffled
/// order up to the current position (empty when that position lies past the
/// order's end); otherwise they are the queue before and after the current
/// position.
pub open spec fn section_positions(m: QueueModel) -> (Seq<usize>, Seq<usize>) {
    let cur = m.current_queue_index;
    if m.shuffle {
        let prefix = if cur <= m.shuffle_order.len() {
            m.shuffle_order.take(cur as int)
        } else {
            Seq::empty()
        };
        (prefix, prefix)
    } else {
        (
            position_range(0, cur),
            if cur < usize::MAX {
                position_range((cur + 1) as usize, m.queue.len() as usize)
            } else {
                Seq::empty()
            },
        )
    }
}

/// Copies of the tracks at the listed positions, with their positions.
fn copy_indexed_tracks(queue: &Vec<Track>, order: &[usize]) -> (r: Vec<(usize, Track)>)
    ensures
        r@ == indexed_tracks_at(queue@, order@),
{
    let mut r: Vec<(usize, Track)> = Vec::new();
    let mut i: usize = 0;
    while i < order.len()
        invariant
            i <= order@.len(),
            r@ == indexed_tracks_at(queue@, order@.take(i as int)),
        decreases order@.len() - i,
    {
        assert(order@.take(i + 1).drop_last() =~= order@.take(i as int));
        let qi = order[i];
        if qi < queue.len() {
            r.push((qi, queue[qi].duplicate()));
        }
        i = i + 1;
    }
    assert(order@.take(order@.len() as int) =~= order@);
    r
}

/// The positions `from..to` (none when `to <= from`).
fn range_positions(from: usize, to: usize) -> (r: Vec<usize>)
    ensures
        r@ == position_range(from, to),
{
    let mut r: Vec<usize> = Vec::new();
    if from >= to {
        assert(r@ =~= position_range(from, to));
        return r;
    }
    let mut i: usize = from;
    while i < to
        invariant
            from <= i <= to,
            r@ == Seq::new((i - from) as nat, |k: int| (from + k) as usize),
        decreases to - i,
    {
        r.push(i);
        i = i + 1;
        assert(r@ =~= Seq::new((i - from) as nat, |k: int| (from + k) as usize));
    }
    r
}

/// The tracks the full-screen player lists as played and as up next, each
/// with its queue position (see `section_positions`); positions past the end
/// of the queue are skipped.
pub fn queue_sections(state: &QueueState) -> (r: (Vec<(usize, Track)>, Vec<(usize, Track)>))
    ensures
        r.0@ == indexed_tracks_at(state.queue@, section_positions(state@).0),
        r.1@ == indexed_tracks_at(state.queue@, section_positions(state@).1),
{
    let cur = state.current_queue_index;
    if state.shuffle {
        let mut prefix: Vec<usize> = Vec::new();
        if cur <= state.shuffle_order.len() {
            let mut i: usize = 0;
            while i < cur
                invariant
                    i <= cur,
                    cur <= state.shuffle_order@.len(),
                    prefix@ == state.shuffle_order@.take(i as int),
                decreases cur - i,
            {
                prefix.push(state.shuffle_order[i]);
                i = i + 1;
                assert(prefix@ =~= state.shuffle_order@.take(i as int));
            }
        } else {
            assert(prefix@ =~= Seq::<usize>::empty());
        }
        let back = copy_indexed_tracks(&state.queue, prefix.as_slice());
        let next = copy_indexed_tracks(&state.queue, prefix.as_slice());
        (back, next)
    } else {
        let before = range_positions(0, cur);
        let back = copy_indexed_tracks(&state.queue, before.as_slice());
        let after = if cur < usize::MAX {
            range_positions(cur + 1, state.queue.len())
        } else {
            let empty: Vec<usize> = Vec::new();
            assert(empty@ =~= Seq::<usize>::empty());
            empty
        };
        let next = copy_indexed_tracks(&state.queue, after.as_slice());
        (back, next)
    }
}

/// The sum of the listed tracks' lengths.
pub open spec fn duration_sum(s: Seq<(usize, Track)>) -> int
    decreases s.len(),
{
    if s.len() == 0 {
        0
    } else {
        duration_sum(s.drop_last()) + s.last().1.duration
    }
}

/// The total length of the tracks coming next.
pub fn up_next_duration(items: &[(usize, Track)]) -> (r: u64)
    requires
        duration_sum(items@) <= u64::MAX,
    ensures
        r == duration_sum(items@),
{
    let mut total: u64 = 0;
    let mut i: usize = 0;
    while i < items.len()
        invariant
            i <= items@.len(),
            duration_sum(items@) <= u64::MAX,
            total == duration_sum(items@.take(i as int)),
        decreases items@.len() - i,
    {
        assert(items@.take(i + 1).drop_last() =~= items@.take(i as int));
        proof {
            lemma_duration_sum_prefix(items@, i + 1);
        }
        total = total + items[i].1.duration;
        i = i + 1;
    }
    assert(items@.take(items@.len() as int) =~= items@);
    total
}

/// A prefix never sums to more than the whole.
pub proof fn lemma_duration_sum_prefix(s: Seq<(usize, Track)>, k: int)
    requires
        0 <= k <= s.len(),
    ensures
        duration_sum(s.take(k)) <= duration_sum(s),
    decreases s.len(),
{
    if k < s.len() {
        assert(s.drop_last().take(k) =~= s.take(k));
        lemma_duration_sum_prefix(s.drop_last(), k);
    } else {
        assert(s.take(k) =~= s);
    }
}

} // verus!
