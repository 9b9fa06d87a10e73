//! Instants and the ages computed from them.

use chrono::{DateTime, FixedOffset};
use vstd::prelude::*;

verus! {

/// An instant on the Unix time line: `secs` whole seconds after the epoch
/// (negative before it) and `nanos` nanoseconds after that second.
///
/// The nanoseconds are normally fewer than a second's worth, but nothing
/// rests on that: more of them simply reach further.
#[derive(Clone, Copy, Debug, PartialEq, Eq, Structural)]
pub struct Timestamp {
    pub secs: i64,
    pub nanos: u32,
}

impl Timestamp {
    /// The instant as a count of nanoseconds since the epoch.
    pub open spec fn as_nanos(self) -> int {
        self.secs * 1_000_000_000 + self.nanos
    }

    /// The instant `nanos` nanoseconds after the second `secs`.
    pub fn new(secs: i64, nanos: u32) -> (t: Timestamp)
        ensures
            t.secs == secs,
            t.nanos == nanos,
    {
        Timestamp { secs, nanos }
    }

    /// The instant that lies `secs` seconds and `nanos` nanoseconds after the
    /// epoch; `None` where the seconds do not fit.
    pub fn after_epoch(secs: u64, nanos: u32) -> (t: Option<Timestamp>)
        ensures
            match t {
                Some(t) => t.secs == secs && t.nanos == nanos,
                None => secs > i64::MAX,
            },
    {
        if secs > i64::MAX as u64 {
            None
        } else {
            Some(Timestamp { secs: secs as i64, nanos })
        }
    }

    /// The instant that lies `secs` seconds and `nanos` nanoseconds before
    /// the epoch, with its nanoseconds counted forward from a whole second;
    /// `None` where that second does not fit.
    pub fn before_epoch(secs: u64, nanos: u32) -> (t: Option<Timestamp>)
        ensures
            match t {
                Some(t) => t.as_nanos() == -(secs * 1_000_000_000 + nanos) && t.nanos
                    < 1_000_000_000,
                None => -(secs * 1_000_000_000 + nanos) < i64::MIN * 1_000_000_000,
            },
    {
        let back: i128 = -(secs as i128 * 1_000_000_000 + nanos as i128);
        let whole: i128 = floor_div(back, 1_000_000_000);
        if whole < i64::MIN as i128 {
            None
        } else {
            let rest: i128 = back - whole * 1_000_000_000;
            assert(0 <= rest < 1_000_000_000) by (nonlinear_arith)
                requires
                    whole == back / 1_000_000_000,
                    rest == back - whole * 1_000_000_000,
            ;
            Some(Timestamp { secs: whole as i64, nanos: rest as u32 })
        }
    }
}

/// Whole seconds that passed from `then` to `now`, rounded down; negative
/// when `then` lies after `now`.
pub open spec fn elapsed_seconds(now: Timestamp, then: Timestamp) -> int {
    (now.as_nanos() - then.as_nanos()) / 1_000_000_000
}

/// Age in whole days of something last modified at `modified`, seen from
/// `now`: the elapsed seconds divided by 86400, rounded down.
pub open spec fn age_days(now: Timestamp, modified: Timestamp) -> int {
    elapsed_seconds(now, modified) / 86_400
}

/// Division rounding towards negative infinity.
fn floor_div(a: i128, b: i128) -> (q: i128)
    requires
        0 < b <= 1_000_000_000,
        -0x4000_0000_0000_0000_0000_0000_0000_0000 < a < 0x4000_0000_0000_0000_0000_0000_0000_0000,
    ensures
        q == a / b,
{
    if a >= 0 {
        a / b
    } else {
        let n: i128 = -a;
        let up: i128 = (n + (b - 1)) / b;
        assert(-up == a / b) by (nonlinear_arith)
            requires
                a < 0,
                b > 0,
                n == -a,
                up == (n + (b - 1)) / (b as int),
        ;
        -up
    }
}

/// Whole seconds from `then` to `now`, rounded down.
pub fn seconds_between(now: Timestamp, then: Timestamp) -> (secs: i128)
    ensures
        secs == elapsed_seconds(now, then),
{
    let whole: i128 = now.secs as i128 - then.secs as i128;
    let fraction: i128 = now.nanos as i128 - then.nanos as i128;
    let nanos: i128 = whole * 1_000_000_000 + fraction;
    floor_div(nanos, 1_000_000_000)
}

/// Age in whole days of a file last modified at `modified`, seen from `now`.
pub fn age_in_days(now: Timestamp, modified: Timestamp) -> (days: i64)
    ensures
        days == age_days(now, modified),
{
    let secs: i128 = seconds_between(now, modified);
    let days: i128 = floor_div(secs, 86_400);
    days as i64
}

/// Whether a file last modified at `modified` has reached the age of
/// `retention_days` whole days at `now`. The threshold is inclusive.
pub fn has_expired(now: Timestamp, modified: Timestamp, retention_days: u64) -> (expired: bool)
    ensures
        expired == (age_days(now, modified) >= retention_days),
{
    let days: i64 = age_in_days(now, modified);
    days >= 0 && days as u64 >= retention_days
}

/// The text that chrono writes for the instant `secs` seconds and `nanos`
/// nanoseconds after the epoch, on a clock `offset` seconds east of UTC,
/// under the strftime pattern `format`; `None` where chrono has no such
/// instant or no such offset, or does not accept the pattern.
pub uninterp spec fn formatted_time(
    secs: int,
    nanos: int,
    offset: int,
    format: Seq<char>,
) -> Option<Seq<char>>;

/// A text that may be missing, as a value.
pub open spec fn text_view(text: Option<String>) -> Option<Seq<char>> {
    match text {
        Some(text) => Some(text@),
        None => None,
    }
}

/// Formats `created` for a clock `offset` seconds east of UTC.
///
/// Trusted: the body chains chrono's `DateTime::from_timestamp`,
/// `FixedOffset::east_opt`, `DateTime::with_timezone`, `DateTime::format` and
/// `DelayedFormat::write_to`. The first two return `None` and the last an
/// error on arguments they do not accept, and none of them panics; every such
/// refusal ends in `None` here. What is written depends on the four values
/// alone, which is all that the name `formatted_time` records.
#[verifier::external_body]
pub(crate) fn format_time(created: Timestamp, offset: i32, format: &str) -> (text: Option<String>)
    ensures
        text_view(text) == formatted_time(
            created.secs as int,
            created.nanos as int,
            offset as int,
            format@,
        ),
{
    let utc = DateTime::from_timestamp(created.secs, created.nanos)?;
    let zone = FixedOffset::east_opt(offset)?;
    let mut text = String::new();
    utc.with_timezone(&zone).format(format).write_to(&mut text).ok()?;
    Some(text)
}

} // verus!
