use vstd::prelude::*;
use crate::remote::{split_colons, split_on, views};
use crate::track::Track;

verus! {

/// The summed length of tracks, in seconds.
pub open spec fn tracks_seconds(s: Seq<Track>) -> int
    decreases s.len(),
{
    if s.len() == 0 {
        0
    } else {
        tracks_seconds(s.drop_last()) + s.last().duration
    }
}

proof fn lemma_tracks_seconds_prefix(s: Seq<Track>, k: int)
    requires
        0 <= k <= s.len(),
    ensures
        tracks_seconds(s.take(k)) <= tracks_seconds(s),
    decreases s.len(),
{
    if k < s.len() {
        assert(s.drop_last().take(k) =~= s.take(k));
        lemma_tracks_seconds_prefix(s.drop_last(), k);
    } else {
        assert(s.take(k) =~= s);
    }
}

/// The whole minutes of an album or playlist, shown in its header.
pub fn showcase_minutes(tracks: &[Track]) -> (r: u64)
    requires
        tracks_seconds(tracks@) <= u64::MAX,
    ensures
        r == tracks_seconds(tracks@) / 60,
{
    let mut total: u64 = 0;
    let mut i: usize = 0;
    while i < tracks.len()
        invariant
            i <= tracks@.len(),
            tracks_seconds(tracks@) <= u64::MAX,
            total == tracks_seconds(tracks@.take(i as int)),
        decreases tracks@.len() - i,
    {
        assert(tracks@.take(i + 1).drop_last() =~= tracks@.take(i as int));
        proof {
            lemma_tracks_seconds_prefix(tracks@, i + 1);
        }
        total = total + tracks[i].duration;
        i = i + 1;
    }
    assert(tracks@.take(tracks@.len() as int) =~= tracks@);
    total / 60
}

/// Whether the tracks carry at least two different disc numbers.
pub open spec fn several_discs(discs: Seq<Option<u32>>) -> bool {
    exists|i: int, j: int|
        0 <= i < discs.len() && 0 <= j < discs.len() && #[trigger] discs[i] is Some && #[trigger] discs[j] is Some
            && discs[i] != discs[j]
}

/// Whether the tracks of a list span more than one disc.
pub fn has_multiple_discs(discs: &[Option<u32>]) -> (r: bool)
    ensures
        r == several_discs(discs@),
{
    let mut first: Option<u32> = None;
    let mut first_at: usize = 0;
    let mut i: usize = 0;
    while i < discs.len()
        invariant
            i <= discs@.len(),
            first is None ==> forall|k: int| 0 <= k < i ==> discs@[k] is None,
            first is Some ==> first_at < i && discs@[first_at as int] == first
                && forall|k: int| 0 <= k < i && (#[trigger] discs@[k]) is Some ==> discs@[k] == first,
        decreases discs@.len() - i,
    {
        match (first, discs[i]) {
            (None, Some(d)) => {
                first = Some(d);
                first_at = i;
            },
            (Some(f), Some(d)) => {
                if d != f {
                    assert(discs@[first_at as int] is Some && discs@[i as int] is Some);
                    return true;
                }
            },
            _ => {},
        }
        i = i + 1;
    }
    false
}

/// Whether all the tracks of a non-empty list have an offline copy.
pub fn all_downloaded(downloaded: &[bool]) -> (r: bool)
    ensures
        r == (downloaded@.len() > 0 && forall|k: int| 0 <= k < downloaded@.len() ==> downloaded@[k]),
{
    if downloaded.len() == 0 {
        return false;
    }
    let mut i: usize = 0;
    while i < downloaded.len()
        invariant
            i <= downloaded@.len(),
            forall|k: int| 0 <= k < i ==> downloaded@[k],
        decreases downloaded@.len() - i,
    {
        if !downloaded[i] {
            return false;
        }
        i = i + 1;
    }
    true
}

/// The key of a track in the offline index: the second colon-separated piece
/// of its path, or the whole path when it has no colon.
pub open spec fn offline_key_of(path: Seq<char>) -> Seq<char> {
    if split_on(path, ':').len() >= 2 {
        split_on(path, ':')[1]
    } else {
        path
    }
}

/// The key under which a track's offline copy is recorded.
pub fn offline_key(path: &str) -> (r: String)
    ensures
        r@ == offline_key_of(path@),
{
    let parts = split_colons(path);
    if parts.len() >= 2 {
        assert(views(parts@)[1] == parts@[1]@);
        parts[1].clone()
    } else {
        String::from_str(path)
    }
}

/// Where a track row opens a new disc: disc grouping is on and its disc
/// differs from the row before it. Counting starts at row `from`, which only
/// opens a disc when it has a number.
pub open spec fn opens_disc(discs: Seq<Option<u32>>, grouped: bool, from: int, j: int) -> bool {
    grouped && if j == from {
        discs[j] is Some
    } else {
        discs[j] != discs[j - 1]
    }
}

/// The row at which the disc of row `j` opened (counting from `from`), or 0
/// before any disc opened.
pub open spec fn disc_opened_at(discs: Seq<Option<u32>>, grouped: bool, from: int, j: int) -> int
    decreases j - from,
{
    if j < from {
        0
    } else if opens_disc(discs, grouped, from, j) {
        j
    } else if j == from {
        0
    } else {
        disc_opened_at(discs, grouped, from, j - 1)
    }
}

/// How a row of an album's track list is drawn.
#[derive(Debug, Clone, Copy, PartialEq, Eq, Structural)]
pub struct DiscRow {
    /// The disc header drawn above the row, with the disc's number.
    pub header: Option<u32>,
    /// The number shown in the row: its place within its disc.
    pub row_num: usize,
}

/// The spec of a row: a header where a disc opens in a list of several
/// discs (a row without a disc number is headed as disc 1), and the row's
/// place counted from where its disc opened.
pub open spec fn disc_row(discs: Seq<Option<u32>>, grouped: bool, several: bool, from: int, j: int) -> DiscRow {
    DiscRow {
        header: if several && opens_disc(discs, grouped, from, j) {
            Some(match discs[j] {
                Some(d) => d,
                None => 1u32,
            })
        } else {
            None
        },
        row_num: (j + 1 - disc_opened_at(discs, grouped, from, j)) as usize,
    }
}

proof fn lemma_disc_opened_bounds(discs: Seq<Option<u32>>, grouped: bool, from: int, j: int)
    requires
        0 <= from <= j,
    ensures
        0 <= disc_opened_at(discs, grouped, from, j) <= j,
        disc_opened_at(discs, grouped, from, j) == 0 || from <= disc_opened_at(discs, grouped, from, j),
    decreases j - from,
{
    if j > from && !opens_disc(discs, grouped, from, j) {
        lemma_disc_opened_bounds(discs, grouped, from, j - 1);
    }
}

/// The rows `start..end` of an album's track list, with disc headers when
/// `grouped` (an album in its own order) and the tracks span several discs.
/// Disc runs are followed from row `from`: 0 to number the rows within whole
/// discs, or `start` to follow them within the drawn rows only.
pub fn disc_rows(discs: &[Option<u32>], grouped: bool, from: usize, start: usize, end: usize) -> (r: Vec<DiscRow>)
    requires
        from <= start <= end <= discs@.len(),
    ensures
        r@.len() == end - start,
        forall|k: int|
            0 <= k < r@.len() ==> #[trigger] r@[k] == disc_row(
                discs@,
                grouped,
                several_discs(discs@),
                from as int,
                start + k,
            ),
{
    let several = has_multiple_discs(discs);
    let mut last_disc: Option<u32> = None;
    let mut last_disc_size: usize = 0;
    let mut out: Vec<DiscRow> = Vec::new();
    let mut j: usize = from;
    while j < end
        invariant
            from <= j <= end,
            start <= end <= discs@.len(),
            from <= start,
            several == several_discs(discs@),
            grouped && j > from ==> last_disc == discs@[j - 1],
            grouped && j == from ==> last_disc is None,
            last_disc_size as int == (if j == from { 0 } else { disc_opened_at(discs@, grouped, from as int, j - 1) }),
            j <= start ==> out@.len() == 0,
            j > start ==> out@.len() == j - start,
            forall|k: int|
                0 <= k < out@.len() ==> #[trigger] out@[k] == disc_row(
                    discs@,
                    grouped,
                    several,
                    from as int,
                    start + k,
                ),
        decreases end - j,
    {
        proof {
            lemma_disc_opened_bounds(discs@, grouped, from as int, j as int);
        }
        let d = discs[j];
        let mut new_disc = false;
        if d != last_disc && grouped {
            last_disc = d;
            new_disc = true;
            last_disc_size = j;
        }
        assert(new_disc == opens_disc(discs@, grouped, from as int, j as int));
        if j >= start {
            let header = if several && new_disc {
                Some(match d {
                    Some(n) => n,
                    None => 1u32,
                })
            } else {
                None
            };
            out.push(DiscRow { header, row_num: j + 1 - last_disc_size });
        }
        j = j + 1;
    }
    out
}

} // verus!
