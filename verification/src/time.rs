//! Instants and elapsed-time labels.
use vstd::prelude::*;

use crate::text::{dec_nat, is_ascii_digit, push_char, push_u128, push_u64};

verus! {

/// A UTC instant: whole seconds since the Unix epoch and the nanoseconds past them.
#[derive(Debug, Clone, Copy, PartialEq, Eq, Structural)]
pub struct UtcTime {
    pub secs: i64,
    pub nanos: u32,
}

impl UtcTime {
    /// The instant as nanoseconds since the epoch.
    pub open spec fn total_nanos(self) -> int {
        self.secs * 1_000_000_000 + self.nanos
    }
}

/// Instants in time order: by second, then by nanosecond.
pub open spec fn time_lt(a: UtcTime, b: UtcTime) -> bool {
    a.secs < b.secs || (a.secs == b.secs && a.nanos < b.nanos)
}

pub open spec fn time_le(a: UtcTime, b: UtcTime) -> bool {
    time_lt(a, b) || a == b
}

/// `Option<DateTime>` order: nothing before any instant.
pub open spec fn opt_time_lt(a: Option<UtcTime>, b: Option<UtcTime>) -> bool {
    match (a, b) {
        (None, Some(_)) => true,
        (Some(x), Some(y)) => time_lt(x, y),
        _ => false,
    }
}

pub fn time_lt_exec(a: UtcTime, b: UtcTime) -> (r: bool)
    ensures
        r == time_lt(a, b),
{
    a.secs < b.secs || (a.secs == b.secs && a.nanos < b.nanos)
}

pub fn opt_time_lt_exec(a: Option<UtcTime>, b: Option<UtcTime>) -> (r: bool)
    ensures
        r == opt_time_lt(a, b),
{
    match (a, b) {
        (None, Some(_)) => true,
        (Some(x), Some(y)) => time_lt_exec(x, y),
        _ => false,
    }
}

/// Whole seconds from `s` to `f` (truncated towards zero), never below zero.
pub open spec fn elapsed_secs(s: UtcTime, f: UtcTime) -> int {
    let d = f.total_nanos() - s.total_nanos();
    if d <= 0 {
        0
    } else {
        d / 1_000_000_000
    }
}

/// `n` in two digits, zero-padded (`{:02}`).
pub open spec fn pad2(n: nat) -> Seq<char> {
    if n < 10 {
        seq!['0'] + dec_nat(n)
    } else {
        dec_nat(n)
    }
}

/// `3s`, `4m05s`, `2h07m`: the elapsed time, coarser as it grows.
pub open spec fn duration_text(secs: nat) -> Seq<char> {
    if secs < 60 {
        dec_nat(secs) + seq!['s']
    } else if secs < 3600 {
        dec_nat(secs / 60) + seq!['m'] + pad2(secs % 60) + seq!['s']
    } else {
        dec_nat(secs / 3600) + seq!['h'] + pad2((secs % 3600) / 60) + seq!['m']
    }
}

/// The elapsed time between two instants, when both are known.
pub open spec fn fmt_duration_spec(start: Option<UtcTime>, finish: Option<UtcTime>) -> Option<
    Seq<char>,
> {
    match (start, finish) {
        (Some(s), Some(f)) => Some(duration_text(elapsed_secs(s, f) as nat)),
        _ => None,
    }
}

fn push_pad2(out: &mut String, n: u64)
    requires
        n < 100,
    ensures
        final(out)@ == old(out)@ + pad2(n as nat),
{
    if n < 10 {
        push_char(out, '0');
        push_u64(out, n);
        assert(old(out)@.push('0') + dec_nat(n as nat) =~= old(out)@ + (seq!['0'] + dec_nat(
            n as nat,
        )));
    } else {
        push_u64(out, n);
    }
}

/// Formats the elapsed time between two instants (only when both are known).
pub fn fmt_duration(start: Option<UtcTime>, finish: Option<UtcTime>) -> (r: Option<String>)
    ensures
        r matches Some(t) ==> fmt_duration_spec(start, finish) == Some(t@),
        r is None ==> fmt_duration_spec(start, finish) is None,
{
    let (s, f) = match (start, finish) {
        (Some(s), Some(f)) => (s, f),
        _ => return None,
    };
    let d: i128 = (f.secs as i128 - s.secs as i128) * 1_000_000_000 + (f.nanos as i128
        - s.nanos as i128);
    let secs: u128 = if d <= 0 {
        0
    } else {
        (d / 1_000_000_000) as u128
    };
    assert(secs as int == elapsed_secs(s, f));
    let mut out = String::new();
    if secs < 60 {
        push_u128(&mut out, secs);
        push_char(&mut out, 's');
    } else if secs < 3600 {
        push_u128(&mut out, secs / 60);
        push_char(&mut out, 'm');
        push_pad2(&mut out, (secs % 60) as u64);
        push_char(&mut out, 's');
    } else {
        push_u128(&mut out, secs / 3600);
        push_char(&mut out, 'h');
        push_pad2(&mut out, ((secs % 3600) / 60) as u64);
        push_char(&mut out, 'm');
    }
    assert(out@ =~= duration_text(secs as nat));
    Some(out)
}


/// What chrono writes for the instant `(secs, nanos)` with the pattern `%Y-%m-%dT%H:%M`,
/// in UTC; `None` where chrono cannot represent the instant.
pub uninterp spec fn utc_minute_text(secs: i64, nanos: u32) -> Option<Seq<char>>;

/// `chrono::DateTime::<Utc>::format` with `%Y-%m-%dT%H:%M` (the instant built by
/// `DateTime::from_timestamp`, which declines out-of-range instants). The text is named, not
/// restated: it is a function of the instant alone.
#[verifier::external_body]
pub fn utc_minute(t: UtcTime) -> (r: Option<String>)
    ensures
        match r {
            Some(s) => utc_minute_text(t.secs, t.nanos) == Some(s@),
            None => utc_minute_text(t.secs, t.nanos) is None,
        },
{
    match chrono::DateTime::from_timestamp(t.secs, t.nanos) {
        Some(d) => Some(d.format("%Y-%m-%dT%H:%M").to_string()),
        None => None,
    }
}

/// An `%H:%M` clock reading: two digits, `:`, two digits.
pub open spec fn clock_shape(s: Seq<char>) -> bool {
    &&& s.len() == 5
    &&& s[2] == ':'
    &&& is_ascii_digit(s[0]) && is_ascii_digit(s[1]) && is_ascii_digit(s[3]) && is_ascii_digit(s[4])
}

/// `chrono::DateTime::from_timestamp` then `with_timezone(&Local)` and `format("%H:%M")`.
/// Whether there is a reading depends only on the instant (the same `from_timestamp` that
/// `utc_minute` calls), and a reading is always hours and minutes in two digits each; which
/// digits depends on the machine's time zone, so they are left unsaid.
#[verifier::external_body]
pub fn local_clock(t: UtcTime) -> (r: Option<String>)
    ensures
        r is Some <==> utc_minute_text(t.secs, t.nanos) is Some,
        r matches Some(s) ==> clock_shape(s@),
{
    match chrono::DateTime::from_timestamp(t.secs, t.nanos) {
        Some(d) => Some(d.with_timezone(&chrono::Local).format("%H:%M").to_string()),
        None => None,
    }
}

} // verus!
