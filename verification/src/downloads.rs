use vstd::prelude::*;
use crate::text::{decimal, push_decimal};

verus! {

/// Where a download stands.
#[derive(Debug, Clone, Copy, PartialEq, Eq, Structural)]
pub enum DownloadStatus {
    Queued,
    Downloading,
    Done,
    Failed,
}

/// The heading of the download panel: progress while downloading, the tally after.
pub open spec fn download_title_text(is_active: bool, done: nat, total: nat) -> Seq<char> {
    if is_active {
        "Downloading "@ + decimal(done + 1) + " / "@ + decimal(total)
    } else {
        "Done — "@ + decimal(done) + " downloaded"@
    }
}

/// The heading of the download panel.
pub fn download_title(is_active: bool, done: u64, total: u64) -> (r: String)
    requires
        is_active ==> done < u64::MAX,
    ensures
        r@ == download_title_text(is_active, done as nat, total as nat),
{
    if is_active {
        let mut s = String::from_str("Downloading ");
        push_decimal(&mut s, done + 1);
        s.append(" / ");
        push_decimal(&mut s, total);
        s
    } else {
        let mut s = String::from_str("Done — ");
        push_decimal(&mut s, done);
        s.append(" downloaded");
        s
    }
}

/// How many entries have the status.
pub open spec fn status_count(items: Seq<DownloadStatus>, status: DownloadStatus) -> nat
    decreases items.len(),
{
    if items.len() == 0 {
        0
    } else {
        status_count(items.drop_last(), status) + if items.last() == status {
            1nat
        } else {
            0nat
        }
    }
}

/// Counts the downloads with a status (failed ones, queued ones).
pub fn count_with_status(items: &[DownloadStatus], status: DownloadStatus) -> (r: usize)
    ensures
        r == status_count(items@, status),
{
    let mut n: usize = 0;
    let mut i: usize = 0;
    while i < items.len()
        invariant
            i <= items@.len(),
            n == status_count(items@.take(i as int), status),
            n <= i,
        decreases items@.len() - i,
    {
        assert(items@.take(i + 1).drop_last() =~= items@.take(i as int));
        if items[i] == status {
            n = n + 1;
        }
        i = i + 1;
    }
    assert(items@.take(items@.len() as int) =~= items@);
    n
}

/// The text class of a finished, failed or waiting download in the list.
pub fn status_text_class(status: DownloadStatus) -> (r: &'static str)
    ensures
        status == DownloadStatus::Done ==> r@ == "text-slate-400"@,
        status == DownloadStatus::Failed ==> r@ == "text-red-400/70"@,
        status != DownloadStatus::Done && status != DownloadStatus::Failed ==> r@ == "text-slate-500"@,
{
    match status {
        DownloadStatus::Done => "text-slate-400",
        DownloadStatus::Failed => "text-red-400/70",
        _ => "text-slate-500",
    }
}

} // verus!
