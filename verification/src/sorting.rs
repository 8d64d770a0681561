use vstd::prelude::*;
use crate::track::Track;
use crate::text::chars_of;
use std::cmp::Ordering;

verus! {

/// The column a track list is sorted by.
#[derive(Clone, Copy, Debug, PartialEq, Eq, Structural)]
pub enum SortField {
    Title,
    Artist,
    Album,
    Duration,
}

/// Ascending or descending.
#[derive(Clone, Copy, Debug, PartialEq, Eq, Structural)]
pub enum SortDirection {
    Asc,
    Desc,
}

/// No sort, or a column with a direction.
pub type SortState = Option<(SortField, SortDirection)>;

/// How a list of tracks is ordered.
#[derive(Clone, Copy, Debug, PartialEq, Eq, Structural)]
pub enum TrackOrder {
    /// A clicked column of a track table.
    Column(SortField, SortDirection),
    /// Disc, then track number, then title: the order of an album or a folder.
    AlbumPosition,
}

/// Three-way comparison of integers: -1, 0 or 1.
pub open spec fn three_way(a: int, b: int) -> int {
    if a < b {
        -1
    } else if a > b {
        1
    } else {
        0
    }
}

/// The first comparison, or the second where the first is a tie.
pub open spec fn then_order(first: int, second: int) -> int {
    if first != 0 {
        first
    } else {
        second
    }
}

/// Lexicographic three-way comparison of character sequences by code point.
/// For UTF-8 strings this is the order of `str`'s `Ord`, which compares bytes.
pub open spec fn text_order(a: Seq<char>, b: Seq<char>) -> int
    decreases a.len(),
{
    if a.len() == 0 {
        if b.len() == 0 {
            0
        } else {
            -1
        }
    } else if b.len() == 0 {
        1
    } else if a[0] != b[0] {
        three_way(a[0] as int, b[0] as int)
    } else {
        text_order(a.drop_first(), b.drop_first())
    }
}

/// `None` first, then by value: the order of `Option<u32>`.
pub open spec fn option_order(a: Option<u32>, b: Option<u32>) -> int {
    match (a, b) {
        (None, None) => 0,
        (None, Some(_)) => -1,
        (Some(_), None) => 1,
        (Some(x), Some(y)) => three_way(x as int, y as int),
    }
}

/// A missing number counts as zero.
pub open spec fn number_or_zero(a: Option<u32>) -> int {
    match a {
        Some(x) => x as int,
        None => 0,
    }
}

/// What `str::to_lowercase` returns for a string.
pub uninterp spec fn lowercased(s: Seq<char>) -> Seq<char>;

/// Case-insensitive comparison: both sides lowercased, then compared.
pub open spec fn text_order_ci(a: Seq<char>, b: Seq<char>) -> int {
    text_order(lowercased(a), lowercased(b))
}

/// The comparison of two tracks on a column, before the direction applies.
pub open spec fn field_order(l: Track, r: Track, field: SortField) -> int {
    match field {
        SortField::Title => text_order_ci(l.title@, r.title@),
        SortField::Artist => text_order_ci(l.artist@, r.artist@),
        SortField::Album => text_order_ci(l.album@, r.album@),
        SortField::Duration => three_way(l.duration as int, r.duration as int),
    }
}

/// The full three-way comparison of the tracks at positions `i` and `j`.
/// Ties always fall back to the positions, so only `i == j` compares equal.
pub open spec fn position_order(ts: Seq<Track>, order: TrackOrder, i: int, j: int) -> int {
    let l = ts[i];
    let r = ts[j];
    match order {
        TrackOrder::Column(field, dir) => {
            let primary = field_order(l, r, field);
            let directional = if dir == SortDirection::Asc {
                primary
            } else {
                -primary
            };
            if field == SortField::Album {
                then_order(
                    directional,
                    then_order(
                        three_way(number_or_zero(l.disc_number), number_or_zero(r.disc_number)),
                        then_order(
                            three_way(number_or_zero(l.track_number), number_or_zero(r.track_number)),
                            then_order(text_order_ci(l.title@, r.title@), three_way(i, j)),
                        ),
                    ),
                )
            } else {
                then_order(directional, three_way(i, j))
            }
        },
        TrackOrder::AlbumPosition => then_order(
            option_order(l.disc_number, r.disc_number),
            then_order(
                option_order(l.track_number, r.track_number),
                then_order(text_order(l.title@, r.title@), three_way(i, j)),
            ),
        ),
    }
}

/// The track at `i` comes before the track at `j`.
pub open spec fn precedes(ts: Seq<Track>, order: TrackOrder, i: int, j: int) -> bool {
    position_order(ts, order, i, j) < 0
}

/// `r` lists each position of `n` items exactly once.
pub open spec fn is_permutation_of_range(r: Seq<usize>, n: nat) -> bool {
    &&& r.len() == n
    &&& forall|k: int| 0 <= k < r.len() ==> r[k] < n
    &&& forall|a: int, b: int| 0 <= a < b < r.len() ==> r[a] != r[b]
}

/// The position listed at `k` comes before the one listed after it.
pub open spec fn in_order_at(r: Seq<usize>, ts: Seq<Track>, order: TrackOrder, k: int) -> bool {
    precedes(ts, order, r[k] as int, r[k + 1] as int)
}

/// Each listed position comes before the next one.
pub open spec fn is_ordered_by(r: Seq<usize>, ts: Seq<Track>, order: TrackOrder) -> bool {
    forall|k: int| 0 <= k < r.len() - 1 ==> #[trigger] in_order_at(r, ts, order, k)
}

/// `text_order` is antisymmetric.
pub proof fn lemma_text_order_antisym(a: Seq<char>, b: Seq<char>)
    ensures
        text_order(a, b) == -text_order(b, a),
        text_order(a, b) == 0 <==> a == b,
    decreases a.len(),
{
    if a.len() == 0 || b.len() == 0 {
        if a.len() == 0 && b.len() == 0 {
            assert(a =~= b);
        }
    } else if a[0] != b[0] {
        assert(a[0] as int != b[0] as int);
        assert(a != b);
    } else {
        lemma_text_order_antisym(a.drop_first(), b.drop_first());
        assert(a =~= seq![a[0]] + a.drop_first());
        assert(b =~= seq![b[0]] + b.drop_first());
        if a == b {
            assert(a.drop_first() =~= b.drop_first());
        }
    }
}

/// `text_order` is -1, 0 or 1.
pub proof fn lemma_text_order_range(a: Seq<char>, b: Seq<char>)
    ensures
        -1 <= text_order(a, b) <= 1,
    decreases a.len(),
{
    if a.len() > 0 && b.len() > 0 && a[0] == b[0] {
        lemma_text_order_range(a.drop_first(), b.drop_first());
    }
}

/// Three comparisons, of x with y, y with z and x with z, agree with a total preorder.
pub open spec fn chains(xy: int, yz: int, xz: int) -> bool {
    &&& (xy <= 0 && yz <= 0 ==> xz <= 0)
    &&& (xy < 0 && yz <= 0 ==> xz < 0)
    &&& (xy <= 0 && yz < 0 ==> xz < 0)
}

/// A lexicographic combination of comparisons that chain also chains.
pub proof fn lemma_then_chains(xy1: int, yz1: int, xz1: int, xy2: int, yz2: int, xz2: int)
    requires
        chains(xy1, yz1, xz1),
        chains(xy2, yz2, xz2),
    ensures
        chains(then_order(xy1, xy2), then_order(yz1, yz2), then_order(xz1, xz2)),
{
}

/// Integer comparison chains.
pub proof fn lemma_three_way_chains(x: int, y: int, z: int)
    ensures
        chains(three_way(x, y), three_way(y, z), three_way(x, z)),
        chains(-three_way(x, y), -three_way(y, z), -three_way(x, z)),
{
}

/// `text_order` is transitive.
pub proof fn lemma_text_order_trans(a: Seq<char>, b: Seq<char>, c: Seq<char>)
    requires
        text_order(a, b) < 0,
        text_order(b, c) < 0,
    ensures
        text_order(a, c) < 0,
    decreases a.len(),
{
    if a.len() > 0 && b.len() > 0 && c.len() > 0 {
        if a[0] == b[0] && b[0] == c[0] {
            lemma_text_order_trans(a.drop_first(), b.drop_first(), c.drop_first());
        }
    }
}

/// Text comparison chains, in both directions.
pub proof fn lemma_text_order_chains(a: Seq<char>, b: Seq<char>, c: Seq<char>)
    ensures
        chains(text_order(a, b), text_order(b, c), text_order(a, c)),
        chains(-text_order(a, b), -text_order(b, c), -text_order(a, c)),
{
    lemma_text_order_antisym(a, b);
    lemma_text_order_antisym(b, c);
    lemma_text_order_antisym(a, c);
    if text_order(a, b) < 0 && text_order(b, c) < 0 {
        lemma_text_order_trans(a, b, c);
    }
    if text_order(c, b) < 0 && text_order(b, a) < 0 {
        lemma_text_order_trans(c, b, a);
    }
}

/// `position_order` is transitive: a total order on positions.
pub proof fn lemma_precedes_trans(ts: Seq<Track>, order: TrackOrder, i: int, j: int, k: int)
    requires
        precedes(ts, order, i, j),
        precedes(ts, order, j, k),
    ensures
        precedes(ts, order, i, k),
{
    let (a, b, c) = (ts[i], ts[j], ts[k]);
    lemma_three_way_chains(i, j, k);
    lemma_three_way_chains(number_or_zero(a.disc_number), number_or_zero(b.disc_number), number_or_zero(c.disc_number));
    lemma_three_way_chains(number_or_zero(a.track_number), number_or_zero(b.track_number), number_or_zero(c.track_number));
    lemma_three_way_chains(a.duration as int, b.duration as int, c.duration as int);
    lemma_text_order_chains(lowercased(a.title@), lowercased(b.title@), lowercased(c.title@));
    lemma_text_order_chains(lowercased(a.artist@), lowercased(b.artist@), lowercased(c.artist@));
    lemma_text_order_chains(lowercased(a.album@), lowercased(b.album@), lowercased(c.album@));
    lemma_text_order_chains(a.title@, b.title@, c.title@);
    assert(chains(option_order(a.disc_number, b.disc_number), option_order(b.disc_number, c.disc_number), option_order(a.disc_number, c.disc_number)));
    assert(chains(option_order(a.track_number, b.track_number), option_order(b.track_number, c.track_number), option_order(a.track_number, c.track_number)));
    match order {
        TrackOrder::Column(field, dir) => {
            let p_ij = field_order(a, b, field);
            let p_jk = field_order(b, c, field);
            let p_ik = field_order(a, c, field);
            let (d_ij, d_jk, d_ik) = if dir == SortDirection::Asc {
                (p_ij, p_jk, p_ik)
            } else {
                (-p_ij, -p_jk, -p_ik)
            };
            assert(chains(d_ij, d_jk, d_ik));
            if field == SortField::Album {
                let t_ij = then_order(text_order_ci(a.title@, b.title@), three_way(i, j));
                let t_jk = then_order(text_order_ci(b.title@, c.title@), three_way(j, k));
                let t_ik = then_order(text_order_ci(a.title@, c.title@), three_way(i, k));
                lemma_then_chains(text_order_ci(a.title@, b.title@), text_order_ci(b.title@, c.title@), text_order_ci(a.title@, c.title@), three_way(i, j), three_way(j, k), three_way(i, k));
                let n_ij = then_order(three_way(number_or_zero(a.track_number), number_or_zero(b.track_number)), t_ij);
                let n_jk = then_order(three_way(number_or_zero(b.track_number), number_or_zero(c.track_number)), t_jk);
                let n_ik = then_order(three_way(number_or_zero(a.track_number), number_or_zero(c.track_number)), t_ik);
                lemma_then_chains(three_way(number_or_zero(a.track_number), number_or_zero(b.track_number)), three_way(number_or_zero(b.track_number), number_or_zero(c.track_number)), three_way(number_or_zero(a.track_number), number_or_zero(c.track_number)), t_ij, t_jk, t_ik);
                let m_ij = then_order(three_way(number_or_zero(a.disc_number), number_or_zero(b.disc_number)), n_ij);
                let m_jk = then_order(three_way(number_or_zero(b.disc_number), number_or_zero(c.disc_number)), n_jk);
                let m_ik = then_order(three_way(number_or_zero(a.disc_number), number_or_zero(c.disc_number)), n_ik);
                lemma_then_chains(three_way(number_or_zero(a.disc_number), number_or_zero(b.disc_number)), three_way(number_or_zero(b.disc_number), number_or_zero(c.disc_number)), three_way(number_or_zero(a.disc_number), number_or_zero(c.disc_number)), n_ij, n_jk, n_ik);
                lemma_then_chains(d_ij, d_jk, d_ik, m_ij, m_jk, m_ik);
            } else {
                lemma_then_chains(d_ij, d_jk, d_ik, three_way(i, j), three_way(j, k), three_way(i, k));
            }
        },
        TrackOrder::AlbumPosition => {
            let t_ij = then_order(text_order(a.title@, b.title@), three_way(i, j));
            let t_jk = then_order(text_order(b.title@, c.title@), three_way(j, k));
            let t_ik = then_order(text_order(a.title@, c.title@), three_way(i, k));
            lemma_then_chains(text_order(a.title@, b.title@), text_order(b.title@, c.title@), text_order(a.title@, c.title@), three_way(i, j), three_way(j, k), three_way(i, k));
            let n_ij = then_order(option_order(a.track_number, b.track_number), t_ij);
            let n_jk = then_order(option_order(b.track_number, c.track_number), t_jk);
            let n_ik = then_order(option_order(a.track_number, c.track_number), t_ik);
            lemma_then_chains(option_order(a.track_number, b.track_number), option_order(b.track_number, c.track_number), option_order(a.track_number, c.track_number), t_ij, t_jk, t_ik);
            lemma_then_chains(option_order(a.disc_number, b.disc_number), option_order(b.disc_number, c.disc_number), option_order(a.disc_number, c.disc_number), n_ij, n_jk, n_ik);
        },
    }
}

/// In a list ordered step by step, every position comes before all later ones.
pub proof fn lemma_ordered_pairwise(r: Seq<usize>, ts: Seq<Track>, order: TrackOrder, a: int, b: int)
    requires
        is_ordered_by(r, ts, order),
        0 <= a < b < r.len(),
    ensures
        precedes(ts, order, r[a] as int, r[b] as int),
    decreases b - a,
{
    assert(in_order_at(r, ts, order, a));
    if b > a + 1 {
        lemma_ordered_pairwise(r, ts, order, a + 1, b);
        lemma_precedes_trans(ts, order, r[a] as int, r[a + 1] as int, r[b] as int);
    }
}

/// `position_order` is antisymmetric, and zero only on equal positions.
pub proof fn lemma_position_order_antisym(ts: Seq<Track>, order: TrackOrder, i: int, j: int)
    ensures
        position_order(ts, order, i, j) == -position_order(ts, order, j, i),
        position_order(ts, order, i, j) == 0 <==> i == j,
{
    let l = ts[i];
    let r = ts[j];
    lemma_text_order_antisym(lowercased(l.title@), lowercased(r.title@));
    lemma_text_order_antisym(lowercased(l.artist@), lowercased(r.artist@));
    lemma_text_order_antisym(lowercased(l.album@), lowercased(r.album@));
    lemma_text_order_antisym(l.title@, r.title@);
}

/// Two different positions are always ordered one way or the other.
pub proof fn lemma_precedes_total(ts: Seq<Track>, order: TrackOrder, i: int, j: int)
    requires
        i != j,
    ensures
        precedes(ts, order, i, j) != precedes(ts, order, j, i),
{
    lemma_position_order_antisym(ts, order, i, j);
}


/// Lowercases a string (`str::to_lowercase`).
#[verifier::external_body]
fn to_lowercase(s: &str) -> (r: String)
    ensures
        r@ == lowercased(s@),
{
    s.to_lowercase()
}

/// Lexicographic comparison of two character sequences: -1, 0 or 1.
pub(crate) fn compare_chars(a: &Vec<char>, b: &Vec<char>) -> (r: i8)
    ensures
        r as int == text_order(a@, b@),
{
    let mut i: usize = 0;
    assert(a@.skip(0) =~= a@);
    assert(b@.skip(0) =~= b@);
    while i < a.len() && i < b.len()
        invariant
            i <= a.len(),
            i <= b.len(),
            text_order(a@, b@) == text_order(a@.skip(i as int), b@.skip(i as int)),
        decreases a.len() - i,
    {
        let x = a[i];
        let y = b[i];
        assert(a@.skip(i as int)[0] == x);
        assert(b@.skip(i as int)[0] == y);
        if x < y {
            return -1;
        }
        if y < x {
            return 1;
        }
        assert(a@.skip(i as int).drop_first() =~= a@.skip(i + 1));
        assert(b@.skip(i as int).drop_first() =~= b@.skip(i + 1));
        i = i + 1;
    }
    if a.len() == i && b.len() == i {
        0
    } else if a.len() == i {
        -1
    } else {
        1
    }
}

/// Compares two texts ignoring case: both are lowercased first.
fn compare_text(left: &str, right: &str) -> (r: Ordering)
    ensures
        r == ordering_of(text_order_ci(left@, right@)),
{
    let l = to_lowercase(left);
    let r = to_lowercase(right);
    let c = compare_chars(&chars_of(l.as_str()), &chars_of(r.as_str()));
    if c < 0 {
        Ordering::Less
    } else if c > 0 {
        Ordering::Greater
    } else {
        Ordering::Equal
    }
}

/// The `Ordering` for a three-way result.
pub open spec fn ordering_of(c: int) -> Ordering {
    if c < 0 {
        Ordering::Less
    } else if c > 0 {
        Ordering::Greater
    } else {
        Ordering::Equal
    }
}

/// The same comparison on positions given as `usize`.
pub open spec fn position_order_at(ts: Seq<Track>, order: TrackOrder, i: usize, j: usize) -> int {
    position_order(ts, order, i as int, j as int)
}

fn three_way_u64(a: u64, b: u64) -> (r: i8)
    ensures
        r as int == three_way(a as int, b as int),
{
    if a < b {
        -1
    } else if a > b {
        1
    } else {
        0
    }
}

fn three_way_usize(a: usize, b: usize) -> (r: i8)
    ensures
        r as int == three_way(a as int, b as int),
{
    if a < b {
        -1
    } else if a > b {
        1
    } else {
        0
    }
}

fn option_order_exec(a: Option<u32>, b: Option<u32>) -> (r: i8)
    ensures
        r as int == option_order(a, b),
{
    match (a, b) {
        (None, None) => 0,
        (None, Some(_)) => -1,
        (Some(_), None) => 1,
        (Some(x), Some(y)) => three_way_u64(x as u64, y as u64),
    }
}

fn number_order(a: Option<u32>, b: Option<u32>) -> (r: i8)
    ensures
        r as int == three_way(number_or_zero(a), number_or_zero(b)),
{
    let x: u64 = match a {
        Some(v) => v as u64,
        None => 0,
    };
    let y: u64 = match b {
        Some(v) => v as u64,
        None => 0,
    };
    three_way_u64(x, y)
}

fn raw_text_order(a: &String, b: &String) -> (r: i8)
    ensures
        r as int == text_order(a@, b@),
{
    compare_chars(&chars_of(a.as_str()), &chars_of(b.as_str()))
}

fn then_order_exec(first: i8, second: i8) -> (r: i8)
    ensures
        r == then_order(first as int, second as int),
{
    if first != 0 {
        first
    } else {
        second
    }
}

/// The three-way comparison of two list positions under `order`.
fn position_order_exec(ts: &[Track], order: TrackOrder, i: usize, j: usize) -> (r: i8)
    requires
        i < ts@.len(),
        j < ts@.len(),
    ensures
        r == position_order_at(ts@, order, i, j),
{
    let l = &ts[i];
    let r = &ts[j];
    proof {
        lemma_text_order_range(lowercased(l.title@), lowercased(r.title@));
        lemma_text_order_range(lowercased(l.artist@), lowercased(r.artist@));
        lemma_text_order_range(lowercased(l.album@), lowercased(r.album@));
    }
    let by_position = three_way_usize(i, j);
    match order {
        TrackOrder::Column(field, dir) => {
            let primary: i8 = match field {
                SortField::Title => text_value(compare_text(l.title.as_str(), r.title.as_str())),
                SortField::Artist => text_value(compare_text(l.artist.as_str(), r.artist.as_str())),
                SortField::Album => text_value(compare_text(l.album.as_str(), r.album.as_str())),
                SortField::Duration => three_way_u64(l.duration, r.duration),
            };
            let directional: i8 = match dir {
                SortDirection::Asc => primary,
                SortDirection::Desc => -primary,
            };
            match field {
                SortField::Album => {
                    let by_title = text_value(compare_text(l.title.as_str(), r.title.as_str()));
                    let rest = then_order_exec(by_title, by_position);
                    let rest = then_order_exec(number_order(l.track_number, r.track_number), rest);
                    let rest = then_order_exec(number_order(l.disc_number, r.disc_number), rest);
                    then_order_exec(directional, rest)
                },
                _ => then_order_exec(directional, by_position),
            }
        },
        TrackOrder::AlbumPosition => {
            let rest = then_order_exec(raw_text_order(&l.title, &r.title), by_position);
            let rest = then_order_exec(option_order_exec(l.track_number, r.track_number), rest);
            then_order_exec(option_order_exec(l.disc_number, r.disc_number), rest)
        },
    }
}

/// An `i8` as an integer.
pub open spec fn i8_value(r: i8) -> int {
    r as int
}

/// -1, 0 or 1 for `Less`, `Equal`, `Greater`.
fn text_value(o: Ordering) -> (r: i8)
    ensures
        o == ordering_of(i8_value(r)),
        -1 <= r <= 1,
{
    match o {
        Ordering::Less => -1,
        Ordering::Equal => 0,
        Ordering::Greater => 1,
    }
}

/// Whether the track at position `i` comes before the one at `j`.
fn precedes_exec(ts: &[Track], order: TrackOrder, i: usize, j: usize) -> (r: bool)
    requires
        i < ts@.len(),
        j < ts@.len(),
    ensures
        r == precedes(ts@, order, i as int, j as int),
{
    position_order_exec(ts, order, i, j) < 0
}

/// The positions `0..n` in order.
pub(crate) fn identity_positions(n: usize) -> (r: Vec<usize>)
    ensures
        r@.len() == n,
        forall|k: int| 0 <= k < n ==> r@[k] == k,
{
    let mut r: Vec<usize> = Vec::new();
    let mut i: usize = 0;
    while i < n
        invariant
            i <= n,
            r@.len() == i,
            forall|k: int| 0 <= k < i ==> r@[k] == k,
        decreases n - i,
    {
        r.push(i);
        i = i + 1;
    }
    r
}

/// The positions of `ts`, ordered by `order` (an insertion sort).
pub fn sort_positions(ts: &[Track], order: TrackOrder) -> (r: Vec<usize>)
    ensures
        is_permutation_of_range(r@, ts@.len()),
        is_ordered_by(r@, ts@, order),
{
    let n = ts.len();
    let mut r = identity_positions(n);
    let mut k: usize = 0;
    while k < n
        invariant
            n == ts@.len(),
            k <= n,
            is_permutation_of_range(r@, n as nat),
            forall|a: int| 0 <= a < k - 1 ==> #[trigger] in_order_at(r@, ts@, order, a),
        decreases n - k,
    {
        let mut j: usize = k;
        while j > 0 && precedes_exec(ts, order, r[j], r[j - 1])
            invariant
                n == ts@.len(),
                k < n,
                j <= k,
                is_permutation_of_range(r@, n as nat),
                forall|a: int| 0 <= a < j - 1 ==> #[trigger] in_order_at(r@, ts@, order, a),
                forall|a: int| j + 1 <= a < k ==> #[trigger] in_order_at(r@, ts@, order, a),
                j < k ==> in_order_at(r@, ts@, order, j as int),
                0 < j < k ==> precedes(ts@, order, r@[j - 1] as int, r@[j + 1] as int),
            decreases j,
        {
            let x = r[j];
            let y = r[j - 1];
            let ghost before = r@;
            r.set(j - 1, x);
            r.set(j, y);
            assert forall|a: int, b: int| 0 <= a < b < r@.len() implies r@[a] != r@[b] by {
                let pa = if a == j - 1 { j as int } else if a == j { j - 1 } else { a };
                let pb = if b == j - 1 { j as int } else if b == j { j - 1 } else { b };
                assert(r@[a] == before[pa]);
                assert(r@[b] == before[pb]);
                if pa < pb {
                    assert(before[pa] != before[pb]);
                } else {
                    assert(before[pb] != before[pa]);
                }
            }
            assert forall|a: int| 0 <= a < j - 2 implies #[trigger] in_order_at(r@, ts@, order, a) by {
                assert(in_order_at(before, ts@, order, a));
            }
            assert forall|a: int| j <= a < k implies #[trigger] in_order_at(r@, ts@, order, a) by {
                if a > j {
                    assert(in_order_at(before, ts@, order, a));
                }
            }
            if j >= 2 {
                assert(in_order_at(before, ts@, order, j - 2));
            }
            j = j - 1;
        }
        proof {
            if j > 0 {
                lemma_precedes_total(ts@, order, r@[j as int] as int, r@[j - 1] as int);
                assert(in_order_at(r@, ts@, order, j - 1));
            }
            assert forall|a: int| 0 <= a < k implies #[trigger] in_order_at(r@, ts@, order, a) by {
                if a == j - 1 {
                } else if a == j as int {
                }
            }
        }
        k = k + 1;
    }
    r
}

/// The tracks of a list of pairs.
pub open spec fn first_column<T>(s: Seq<(Track, T)>) -> Seq<Track> {
    s.map_values(|e: (Track, T)| e.0)
}

/// The order only reads the tracks' views.
pub proof fn lemma_same_views_same_order(a: Seq<Track>, b: Seq<Track>)
    requires
        a.len() == b.len(),
        forall|k: int| 0 <= k < a.len() ==> a[k]@ == b[k]@,
    ensures
        forall|order: TrackOrder, i: int, j: int|
            0 <= i < a.len() && 0 <= j < a.len() ==> #[trigger] position_order(a, order, i, j)
                == position_order(b, order, i, j),
{
    assert forall|order: TrackOrder, i: int, j: int|
        0 <= i < a.len() && 0 <= j < a.len() implies #[trigger] position_order(a, order, i, j)
        == position_order(b, order, i, j) by {
        assert(a[i]@ == b[i]@);
        assert(a[j]@ == b[j]@);
    }
}

/// The sort state after the header of column `field` is clicked.
pub open spec fn next_sort(current: SortState, field: SortField) -> SortState {
    match current {
        Some((f, SortDirection::Asc)) if f == field => Some((field, SortDirection::Desc)),
        Some((f, SortDirection::Desc)) if f == field => None,
        _ => Some((field, SortDirection::Asc)),
    }
}

/// Clicking a column header: ascending first, then descending, then unsorted;
/// a click on another column starts it ascending.
pub fn next_sort_state(current: SortState, field: SortField) -> (r: SortState)
    ensures
        r == next_sort(current, field),
{
    match current {
        Some((current_field, SortDirection::Asc)) if current_field == field => {
            Some((field, SortDirection::Desc))
        },
        Some((current_field, SortDirection::Desc)) if current_field == field => None,
        _ => Some((field, SortDirection::Asc)),
    }
}

/// Replaces the stored sort state by the next one for `field`.
pub fn toggle_sort_state(sort_state: &mut SortState, field: SortField)
    ensures
        *final(sort_state) == next_sort(*old(sort_state), field),
{
    let next = next_sort_state(*sort_state, field);
    *sort_state = next;
}

/// The icon class a column header shows under `sort_state`.
pub open spec fn sort_icon_text(sort_state: SortState, field: SortField) -> Seq<char> {
    match sort_state {
        Some((f, SortDirection::Asc)) if f == field => "fa-solid fa-sort-up"@,
        Some((f, SortDirection::Desc)) if f == field => "fa-solid fa-sort-down"@,
        _ => "fa-solid fa-sort"@,
    }
}

/// Up or down arrow on the sorted column, a neutral sort icon elsewhere.
pub fn sort_icon(sort_state: SortState, field: SortField) -> (r: &'static str)
    ensures
        r@ == sort_icon_text(sort_state, field),
{
    match sort_state {
        Some((current_field, SortDirection::Asc)) if current_field == field => {
            "fa-solid fa-sort-up"
        },
        Some((current_field, SortDirection::Desc)) if current_field == field => {
            "fa-solid fa-sort-down"
        },
        _ => "fa-solid fa-sort",
    }
}

/// A table header's icon: none when the table cannot be sorted.
pub fn icon_class(sort_state: Option<SortState>, field: SortField) -> (r: String)
    ensures
        sort_state is None ==> r@ == Seq::<char>::empty(),
        sort_state matches Some(s) ==> r@ == sort_icon_text(s, field),
{
    match sort_state {
        Some(s) => String::from_str(sort_icon(s, field)),
        None => String::new(),
    }
}

/// `r` lists the positions of `ts` in display order: unchanged without a
/// sort; under a sort, each position once, every one strictly before the
/// later ones on the column.
pub open spec fn display_order(ts: Seq<Track>, sort_state: SortState, r: Seq<usize>) -> bool {
    &&& sort_state is None ==> r.len() == ts.len() && forall|k: int| 0 <= k < r.len() ==> r[k] == k
    &&& sort_state matches Some((field, dir)) ==> {
        &&& is_permutation_of_range(r, ts.len())
        &&& forall|a: int, b: int|
            0 <= a < b < r.len() ==> #[trigger] precedes(ts, TrackOrder::Column(field, dir), r[a] as int, r[b] as int)
    }
}

/// The positions of `tracks` in display order: unchanged without a sort,
/// otherwise ordered by the column (ties by disc, track number and title on the
/// album column), with equal keys keeping the order they came in.
pub fn sorted_track_indices(tracks: &[Track], sort_state: SortState) -> (r: Vec<usize>)
    ensures
        display_order(tracks@, sort_state, r@),
{
    match sort_state {
        None => identity_positions(tracks.len()),
        Some((field, direction)) => {
            let order = TrackOrder::Column(field, direction);
            let r = sort_positions(tracks, order);
            proof {
                assert forall|a: int, b: int| 0 <= a < b < r@.len() implies #[trigger] precedes(
                    tracks@,
                    order,
                    r@[a] as int,
                    r@[b] as int,
                ) by {
                    lemma_ordered_pairwise(r@, tracks@, order, a, b);
                }
            }
            r
        },
    }
}

/// A list of positions that lists each of `n` positions once lists all of them.
pub proof fn lemma_permutation_covers(p: Seq<usize>, n: nat, v: int)
    requires
        is_permutation_of_range(p, n),
        0 <= v < n,
    ensures
        exists|k: int| 0 <= k < p.len() && p[k] == v,
{
    let s = p.map_values(|x: usize| x as int);
    assert(s.no_duplicates()) by {
        assert forall|a: int, b: int| 0 <= a < s.len() && 0 <= b < s.len() && a != b implies s[a] != s[b] by {
            if a < b {
                assert(p[a] != p[b]);
            } else {
                assert(p[b] != p[a]);
            }
        }
    }
    s.unique_seq_to_set();
    let range = vstd::set_lib::set_int_range(0, n as int);
    vstd::set_lib::lemma_int_range(0, n as int);
    assert(s.to_set().subset_of(range)) by {
        assert forall|x: int| s.to_set().contains(x) implies range.contains(x) by {
            let k = choose|k: int| 0 <= k < s.len() && s[k] == x;
            assert(p[k] < n);
        }
    }
    vstd::set_lib::lemma_subset_equality(s.to_set(), range);
    assert(range.contains(v));
    assert(s.to_set().contains(v));
    let k = choose|k: int| 0 <= k < s.len() && s[k] == v;
    assert(p[k] == v);
}

/// The display order is unique: two lists that each hold every position
/// once, every position strictly before the later ones, are the same list.
pub proof fn lemma_display_order_unique(ts: Seq<Track>, order: TrackOrder, p: Seq<usize>, q: Seq<usize>)
    requires
        is_permutation_of_range(p, ts.len()),
        is_permutation_of_range(q, ts.len()),
        forall|a: int, b: int| 0 <= a < b < p.len() ==> #[trigger] precedes(ts, order, p[a] as int, p[b] as int),
        forall|a: int, b: int| 0 <= a < b < q.len() ==> #[trigger] precedes(ts, order, q[a] as int, q[b] as int),
    ensures
        p == q,
{
    if p != q {
        assert(exists|k: int| 0 <= k < p.len() && p[k] != q[k]) by {
            if forall|k: int| 0 <= k < p.len() ==> p[k] == q[k] {
                assert(p =~= q);
            }
        }
        let k0 = choose|k: int| 0 <= k < p.len() && p[k] != q[k];
        lemma_first_difference(p, q, k0);
        let k = choose|m: int| 0 <= m <= k0 && p[m] != q[m] && forall|j: int| 0 <= j < m ==> p[j] == q[j];
        let x = p[k];
        let y = q[k];
        lemma_permutation_covers(q, ts.len(), x as int);
        let j = choose|j: int| 0 <= j < q.len() && q[j] == x;
        lemma_permutation_covers(p, ts.len(), y as int);
        let i = choose|i: int| 0 <= i < p.len() && p[i] == y;
        if j < k {
            assert(p[j] == q[j]);
            assert(p[j] != p[k]);
        }
        if i < k {
            assert(q[i] == p[i]);
            assert(q[i] != q[k]);
        }
        assert(j > k && i > k);
        assert(precedes(ts, order, q[k] as int, q[j] as int));
        assert(precedes(ts, order, p[k] as int, p[i] as int));
        lemma_precedes_total(ts, order, x as int, y as int);
    }
}

proof fn lemma_first_difference(p: Seq<usize>, q: Seq<usize>, k: int)
    requires
        0 <= k < p.len(),
        p.len() == q.len(),
        p[k] != q[k],
    ensures
        exists|m: int| 0 <= m <= k && p[m] != q[m] && forall|j: int| 0 <= j < m ==> p[j] == q[j],
    decreases k,
{
    if !(forall|j: int| 0 <= j < k ==> p[j] == q[j]) {
        let j = choose|j: int| 0 <= j < k && p[j] != q[j];
        lemma_first_difference(p, q, j);
    }
}

/// `r` holds the pairs of `tracks` taken at the positions `p`, which are the
/// display order under `sort_state`; each payload is a clone.
pub open spec fn pairs_in_order<T: Clone>(
    r: Seq<(Track, T)>,
    tracks: Seq<(Track, T)>,
    sort_state: SortState,
    p: Seq<usize>,
) -> bool {
    &&& r.len() == tracks.len()
    &&& is_permutation_of_range(p, tracks.len())
    &&& (sort_state is None ==> forall|k: int| 0 <= k < p.len() ==> p[k] == k)
    &&& (sort_state matches Some((field, dir)) ==> forall|a: int, b: int|
        0 <= a < b < p.len() ==> #[trigger] precedes(
            first_column(tracks),
            TrackOrder::Column(field, dir),
            p[a] as int,
            p[b] as int,
        ))
    &&& forall|k: int| 0 <= k < r.len() ==> #[trigger] copied_at(r, tracks, p, k)
}

/// Under an album sort, in either direction, tracks of the same album
/// (ignoring case) with the same disc and track numbers are listed by title,
/// ascending and ignoring case: the one whose lowercased title comes first is
/// listed first.
pub proof fn lemma_album_sort_ties_by_title(ts: Seq<Track>, dir: SortDirection, r: Seq<usize>, a: int, b: int)
    requires
        display_order(ts, Some((SortField::Album, dir)), r),
        0 <= a < r.len(),
        0 <= b < r.len(),
        lowercased(ts[r[a] as int].album@) == lowercased(ts[r[b] as int].album@),
        ts[r[a] as int].disc_number == ts[r[b] as int].disc_number,
        ts[r[a] as int].track_number == ts[r[b] as int].track_number,
        text_order(lowercased(ts[r[a] as int].title@), lowercased(ts[r[b] as int].title@)) < 0,
    ensures
        a < b,
{
    let x = ts[r[a] as int];
    let y = ts[r[b] as int];
    lemma_text_order_antisym(lowercased(x.title@), lowercased(y.title@));
    lemma_text_order_antisym(lowercased(y.album@), lowercased(x.album@));
    if b < a {
        assert(precedes(ts, TrackOrder::Column(SortField::Album, dir), r[b] as int, r[a] as int));
        assert(text_order_ci(y.album@, x.album@) == 0);
        assert(text_order_ci(y.title@, x.title@) > 0);
        assert(position_order(ts, TrackOrder::Column(SortField::Album, dir), r[b] as int, r[a] as int) > 0);
    }
}

/// The pairs `sorted_track_pairs` gives are the pairs at exactly the
/// positions `sorted_track_indices` gives for their tracks: whatever order `p`
/// the pairs' contract admits and whatever order `r` the indices' contract
/// admits for the first column, they are the same list, so each pair of the
/// result is the pair at `r[k]`.
pub proof fn lemma_sorted_pairs_follow_sorted_indices<T: Clone>(
    result: Seq<(Track, T)>,
    tracks: Seq<(Track, T)>,
    sort_state: SortState,
    p: Seq<usize>,
    r: Seq<usize>,
)
    requires
        pairs_in_order(result, tracks, sort_state, p),
        display_order(first_column(tracks), sort_state, r),
    ensures
        p == r,
        forall|k: int| 0 <= k < result.len() ==> #[trigger] copied_at(result, tracks, r, k),
{
    let ts = first_column(tracks);
    match sort_state {
        None => {
            assert(p =~= r);
        },
        Some((field, dir)) => {
            lemma_display_order_unique(ts, TrackOrder::Column(field, dir), p, r);
        },
    }
    assert forall|k: int| 0 <= k < result.len() implies #[trigger] copied_at(result, tracks, r, k) by {
        assert(copied_at(result, tracks, p, k));
    }
}

/// The pair at `k` of `r` holds the track at `p[k]` of `tracks` and a clone of its payload.
pub open spec fn copied_at<T: Clone>(r: Seq<(Track, T)>, tracks: Seq<(Track, T)>, p: Seq<usize>, k: int) -> bool {
    r[k].0@ == tracks[p[k] as int].0@ && cloned(tracks[p[k] as int].1, r[k].1)
}

/// The pairs of `tracks` in display order (see `sorted_track_indices`);
/// each payload is cloned.
pub fn sorted_track_pairs<T: Clone>(tracks: &[(Track, T)], sort_state: SortState) -> (r: Vec<(Track, T)>)
    ensures
        exists|p: Seq<usize>| #[trigger] pairs_in_order(r@, tracks@, sort_state, p),
{
    let mut keys: Vec<Track> = Vec::new();
    let mut i: usize = 0;
    while i < tracks.len()
        invariant
            i <= tracks@.len(),
            keys@.len() == i,
            forall|k: int| 0 <= k < i ==> keys@[k]@ == tracks@[k].0@,
        decreases tracks@.len() - i,
    {
        keys.push(tracks[i].0.duplicate());
        i = i + 1;
    }
    let ghost firsts = first_column(tracks@);
    proof {
        assert forall|k: int| 0 <= k < keys@.len() implies keys@[k]@ == firsts[k]@ by {}
        lemma_same_views_same_order(keys@, firsts);
    }
    let order = sorted_track_indices(keys.as_slice(), sort_state);
    let mut r: Vec<(Track, T)> = Vec::new();
    let mut k: usize = 0;
    while k < order.len()
        invariant
            k <= order@.len(),
            order@.len() == tracks@.len(),
            forall|m: int| 0 <= m < order@.len() ==> order@[m] < tracks@.len(),
            r@.len() == k,
            forall|m: int| 0 <= m < k ==> #[trigger] copied_at(r@, tracks@, order@, m),
        decreases order@.len() - k,
    {
        let idx = order[k];
        let first = tracks[idx].0.duplicate();
        let second = tracks[idx].1.clone();
        assert(cloned(tracks@[idx as int].1, second));
        let ghost prev = r@;
        r.push((first, second));
        assert(r@[k as int].1 == second);
        assert(r@[k as int].0@ == tracks@[order@[k as int] as int].0@);
        assert(cloned(tracks@[order@[k as int] as int].1, r@[k as int].1));
        assert(forall|m: int| 0 <= m < k ==> r@[m] == prev[m]);
        assert forall|m: int| 0 <= m < k + 1 implies #[trigger] copied_at(r@, tracks@, order@, m) by {
            if m < k {
                assert(prev[m] == r@[m]);
                assert(copied_at(prev, tracks@, order@, m));
            }
        }
        k = k + 1;
    }
    proof {
        if let Some((field, dir)) = sort_state {
            assert forall|a: int, b: int| 0 <= a < b < order@.len() implies #[trigger] precedes(
                first_column(tracks@),
                TrackOrder::Column(field, dir),
                order@[a] as int,
                order@[b] as int,
            ) by {
                assert(precedes(keys@, TrackOrder::Column(field, dir), order@[a] as int, order@[b] as int));
                assert(position_order(keys@, TrackOrder::Column(field, dir), order@[a] as int, order@[b] as int)
                    == position_order(firsts, TrackOrder::Column(field, dir), order@[a] as int, order@[b] as int));
            }
        } else {
            assert(is_permutation_of_range(order@, tracks@.len()));
        }
    }
    assert(pairs_in_order(r@, tracks@, sort_state, order@));
    r
}

/// `r` is `src` rearranged at the positions `p`, ordered by `order`.
pub open spec fn arranged(r: Seq<Track>, src: Seq<Track>, order: TrackOrder, p: Seq<usize>) -> bool {
    &&& r.len() == src.len()
    &&& is_permutation_of_range(p, src.len())
    &&& forall|a: int, b: int|
        0 <= a < b < p.len() ==> #[trigger] precedes(src, order, p[a] as int, p[b] as int)
    &&& forall|k: int| 0 <= k < r.len() ==> #[trigger] r[k] == src[p[k] as int]
}

/// The tracks of `src` rearranged in `order`.
pub fn arrange(src: &Vec<Track>, order: TrackOrder) -> (r: Vec<Track>)
    ensures
        exists|p: Seq<usize>| #[trigger] arranged(r@, src@, order, p),
{
    let positions = sort_positions(src.as_slice(), order);
    let mut r: Vec<Track> = Vec::new();
    let mut k: usize = 0;
    while k < positions.len()
        invariant
            k <= positions@.len(),
            is_permutation_of_range(positions@, src@.len()),
            r@.len() == k,
            forall|m: int| 0 <= m < k ==> #[trigger] r@[m] == src@[positions@[m] as int],
        decreases positions@.len() - k,
    {
        r.push(src[positions[k]].duplicate());
        k = k + 1;
    }
    proof {
        assert forall|a: int, b: int| 0 <= a < b < positions@.len() implies #[trigger] precedes(
            src@,
            order,
            positions@[a] as int,
            positions@[b] as int,
        ) by {
            lemma_ordered_pairwise(positions@, src@, order, a, b);
        }
    }
    assert(arranged(r@, src@, order, positions@));
    r
}

/// The tracks of `src` whose flag is set, in order.
pub open spec fn flagged(src: Seq<Track>, flags: Seq<bool>) -> Seq<Track>
    decreases src.len(),
{
    if src.len() == 0 {
        Seq::empty()
    } else if flags.len() >= src.len() && flags[src.len() - 1] {
        flagged(src.drop_last(), flags).push(src.last())
    } else {
        flagged(src.drop_last(), flags)
    }
}

/// The tracks whose flag is set, keeping their order.
pub fn select_flagged(src: &[Track], flags: &[bool]) -> (r: Vec<Track>)
    requires
        flags@.len() == src@.len(),
    ensures
        r@ == flagged(src@, flags@),
{
    let mut r: Vec<Track> = Vec::new();
    let mut i: usize = 0;
    while i < src.len()
        invariant
            i <= src@.len(),
            flags@.len() == src@.len(),
            r@ == flagged(src@.take(i as int), flags@),
        decreases src@.len() - i,
    {
        assert(src@.take(i + 1).drop_last() =~= src@.take(i as int));
        if flags[i] {
            r.push(src[i].duplicate());
        }
        i = i + 1;
    }
    assert(src@.take(src@.len() as int) =~= src@);
    r
}

/// The album's flags: whether each track belongs to `album_id`.
pub open spec fn album_flags(src: Seq<Track>, album_id: Seq<char>) -> Seq<bool> {
    Seq::new(src.len(), |k: int| src[k].album_id@ == album_id)
}

/// The tracks of one album in disc, track number and title order.
pub fn album_tracks(tracks: &[Track], album_id: &String) -> (r: Vec<Track>)
    ensures
        exists|p: Seq<usize>|
            #[trigger] arranged(
                r@,
                flagged(tracks@, album_flags(tracks@, album_id@)),
                TrackOrder::AlbumPosition,
                p,
            ),
{
    let mut flags: Vec<bool> = Vec::new();
    let mut i: usize = 0;
    while i < tracks.len()
        invariant
            i <= tracks@.len(),
            flags@.len() == i,
            forall|k: int| 0 <= k < i ==> flags@[k] == (tracks@[k].album_id@ == album_id@),
        decreases tracks@.len() - i,
    {
        flags.push(tracks[i].album_id == *album_id);
        i = i + 1;
    }
    assert(flags@ =~= album_flags(tracks@, album_id@));
    let members = select_flagged(tracks, flags.as_slice());
    arrange(&members, TrackOrder::AlbumPosition)
}

/// A path in the form every platform reads alike, component for component:
/// not empty, `/` as its only separator (no `\\`, no `:` of a drive), no empty
/// segment (no `//`, no trailing `/`), and no `.` segment.
pub open spec fn normal_path(p: Seq<char>) -> bool {
    &&& p.len() > 0
    &&& !p.contains('\\')
    &&& !p.contains(':')
    &&& p.last() != '/'
    &&& forall|i: int| 0 <= i < p.len() - 1 ==> !(#[trigger] p[i] == '/' && p[i + 1] == '/')
    &&& forall|i: int|
        0 <= i < p.len() && #[trigger] p[i] == '.' && (i == 0 || p[i - 1] == '/') ==> i + 1 < p.len() && p[i
            + 1] != '/'
}

/// Whether `path` lies under `folder`, for normal paths: it is the folder, or
/// the folder followed by `/` and more.
pub open spec fn lies_under(path: Seq<char>, folder: Seq<char>) -> bool {
    path == folder || crate::remote::starts_with(path, folder + seq!['/'])
}

/// Whether `path` lies under `folder` (`Path::starts_with`, which compares
/// whole components under the platform's path rules). For two normal paths
/// every platform splits them at `/` into the same components, so the answer
/// is whether the folder's components begin the path's; other paths depend on
/// the platform's separators, prefixes and normalisation, and are left unsaid.
#[verifier::external_body]
fn path_starts_with(path: &str, folder: &str) -> (r: bool)
    ensures
        normal_path(path@) && normal_path(folder@) ==> r == lies_under(path@, folder@),
{
    std::path::Path::new(path).starts_with(folder)
}

/// The tracks whose flag is set, in album order: a folder's listing once the
/// membership of each track is known.
pub fn folder_tracks_from_flags(tracks: &[Track], in_folder: &[bool]) -> (r: Vec<Track>)
    requires
        in_folder@.len() == tracks@.len(),
    ensures
        exists|p: Seq<usize>|
            #[trigger] arranged(r@, flagged(tracks@, in_folder@), TrackOrder::AlbumPosition, p),
{
    let members = select_flagged(tracks, in_folder);
    arrange(&members, TrackOrder::AlbumPosition)
}

/// The tracks under `folder_path`, in album order.
pub fn folder_tracks(tracks: &[Track], folder_path: &str) -> (r: Vec<Track>)
    ensures
        exists|flags: Seq<bool>, p: Seq<usize>|
            flags.len() == tracks@.len() && (forall|k: int|
                0 <= k < tracks@.len() && normal_path(tracks@[k].path@) && normal_path(folder_path@) ==> #[trigger] flags[k]
                    == lies_under(tracks@[k].path@, folder_path@)) && #[trigger] arranged(
                r@,
                flagged(tracks@, flags),
                TrackOrder::AlbumPosition,
                p,
            ),
{
    let mut flags: Vec<bool> = Vec::new();
    let mut i: usize = 0;
    while i < tracks.len()
        invariant
            i <= tracks@.len(),
            flags@.len() == i,
            forall|k: int|
                0 <= k < i && normal_path(tracks@[k].path@) && normal_path(folder_path@) ==> #[trigger] flags@[k]
                    == lies_under(tracks@[k].path@, folder_path@),
        decreases tracks@.len() - i,
    {
        flags.push(path_starts_with(tracks[i].path.as_str(), folder_path));
        i = i + 1;
    }
    let r = folder_tracks_from_flags(tracks, flags.as_slice());
    let ghost fl = flags@;
    assert(exists|p: Seq<usize>| #[trigger] arranged(r@, flagged(tracks@, fl), TrackOrder::AlbumPosition, p));
    r
}

/// Three clicks on one column header bring its sort state back: unsorted,
/// ascending and descending follow each other in a cycle.
pub proof fn lemma_three_clicks_restore(state: SortState, field: SortField)
    requires
        state is None || (state matches Some((f, _)) && f == field),
    ensures
        next_sort(next_sort(next_sort(state, field), field), field) == state,
{
}

/// A click on another column always starts that column ascending.
pub proof fn lemma_other_column_starts_ascending(state: SortState, field: SortField)
    requires
        !(state matches Some((f, _)) && f == field),
    ensures
        next_sort(state, field) == Some((field, SortDirection::Asc)),
{
}

} // verus!
