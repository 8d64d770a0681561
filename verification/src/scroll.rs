use vstd::prelude::*;

verus! {

/// Rows drawn above and below the visible part of a long list.
pub const SCROLL_BUFFER: usize = 10;

/// The first row drawn: the row the scroll position points at, kept inside the
/// list (row 0 for an empty list).
pub open spec fn window_start(first_row: nat, total_items: nat) -> nat {
    if total_items == 0 {
        0
    } else if first_row < total_items {
        first_row
    } else {
        (total_items - 1) as nat
    }
}

/// The number of rows drawn from `window_start`: the visible rows and a
/// buffer on either side, cut off at the end of the list.
pub open spec fn window_len(first_row: nat, window_size: nat, total_items: nat) -> nat {
    let start = window_start(first_row, total_items);
    let end = start + 2 * SCROLL_BUFFER + window_size;
    if end < total_items {
        (end - start) as nat
    } else {
        (total_items - start) as nat
    }
}

/// The rows of a long list that are drawn: `first_row` is the row a scroll
/// position points at (already moved up by the buffer and floored at zero),
/// `window_size` the number of rows that fit in the container. Returns the
/// first row drawn and the number of rows drawn.
pub fn scroll_window(first_row: usize, window_size: usize, total_items: usize) -> (r: (usize, usize))
    requires
        window_start(first_row as nat, total_items as nat) + 2 * SCROLL_BUFFER + window_size
            <= usize::MAX,
    ensures
        r.0 == window_start(first_row as nat, total_items as nat),
        r.1 == window_len(first_row as nat, window_size as nat, total_items as nat),
        r.0 + r.1 <= total_items,
        total_items > 0 ==> r.0 < total_items,
{
    let max_start: usize = if total_items == 0 { 0 } else { total_items - 1 };
    let start: usize = if first_row < max_start { first_row } else { max_start };
    let last_index: usize = start + 2 * SCROLL_BUFFER + window_size;
    let last_inclusive: usize = if last_index == 0 { 0 } else { last_index - 1 };
    let end_index: usize = if total_items == 0 {
        0
    } else if last_inclusive < total_items - 1 {
        last_inclusive
    } else {
        total_items - 1
    };
    let items: usize = if total_items == 0 {
        0
    } else if end_index + 1 > start {
        end_index + 1 - start
    } else {
        0
    };
    (start, items)
}

} // verus!
