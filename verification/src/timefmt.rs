use vstd::prelude::*;
use crate::text::{decimal, zero_pad2, push_char, push_decimal, push_zero_pad2};

verus! {

/// `m:ss` for a number of seconds (minutes are not capped at an hour).
pub open spec fn minutes_seconds(secs: nat) -> Seq<char> {
    decimal(secs / 60) + seq![':'] + zero_pad2(secs % 60)
}

/// `h:mm:ss` when the total reaches an hour, `m:ss` otherwise.
pub open spec fn queue_duration_text(secs: nat) -> Seq<char> {
    if secs / 3600 > 0 {
        decimal(secs / 3600) + seq![':'] + zero_pad2((secs % 3600) / 60) + seq![':'] + zero_pad2(
            secs % 60,
        )
    } else {
        decimal((secs % 3600) / 60) + seq![':'] + zero_pad2(secs % 60)
    }
}

/// `Ns` below a minute, `Nm Ns` from a minute on.
pub open spec fn eta_text(secs: nat) -> Seq<char> {
    if secs < 60 {
        decimal(secs) + seq!['s']
    } else {
        decimal(secs / 60) + seq!['m', ' '] + decimal(secs % 60) + seq!['s']
    }
}

/// The text shown for an unknown position or duration.
pub open spec fn unknown_time_text() -> Seq<char> {
    seq!['-', '-', ':', '-', '-']
}

/// Playback time as `m:ss`; `u64::MAX` (a stream without an end) shows `--:--`.
pub fn fmt_time(secs: u64) -> (r: String)
    ensures
        secs == u64::MAX ==> r@ == unknown_time_text(),
        secs != u64::MAX ==> r@ == minutes_seconds(secs as nat),
{
    if secs == u64::MAX {
        let mut s = String::new();
        push_char(&mut s, '-');
        push_char(&mut s, '-');
        push_char(&mut s, ':');
        push_char(&mut s, '-');
        push_char(&mut s, '-');
        return s;
    }
    fmt_dur(secs)
}

/// A track length as `m:ss`.
pub fn fmt_dur(s: u64) -> (r: String)
    ensures
        r@ == minutes_seconds(s as nat),
{
    let mut out = String::new();
    push_decimal(&mut out, s / 60);
    push_char(&mut out, ':');
    push_zero_pad2(&mut out, s % 60);
    out
}

/// A download's remaining time: `Ns`, or `Nm Ns` from a minute on.
pub fn fmt_eta(secs: u64) -> (r: String)
    ensures
        r@ == eta_text(secs as nat),
{
    let mut out = String::new();
    if secs < 60 {
        push_decimal(&mut out, secs);
        push_char(&mut out, 's');
    } else {
        push_decimal(&mut out, secs / 60);
        push_char(&mut out, 'm');
        push_char(&mut out, ' ');
        push_decimal(&mut out, secs % 60);
        push_char(&mut out, 's');
    }
    out
}

/// The total length of a queue: `h:mm:ss` from an hour on, `m:ss` below.
pub fn format_queue_duration(seconds: u64) -> (r: String)
    ensures
        r@ == queue_duration_text(seconds as nat),
{
    let hours = seconds / 3600;
    let minutes = (seconds % 3600) / 60;
    let secs = seconds % 60;
    let mut out = String::new();
    if hours > 0 {
        push_decimal(&mut out, hours);
        push_char(&mut out, ':');
        push_zero_pad2(&mut out, minutes);
        push_char(&mut out, ':');
        push_zero_pad2(&mut out, secs);
    } else {
        push_decimal(&mut out, minutes);
        push_char(&mut out, ':');
        push_zero_pad2(&mut out, secs);
    }
    out
}

} // verus!
