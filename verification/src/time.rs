//! Instants read from RFC 3339 text, and whole seconds between them.
use vstd::prelude::*;
use chrono::{Datelike, Timelike};

verus! {

/// A point in time: seconds since the Unix epoch (UTC) and the nanoseconds
/// past that second (more than 999,999,999 only inside a leap second).
#[derive(Clone, Copy, Debug, PartialEq, Eq, Structural)]
pub struct Instant {
    pub secs: i64,
    pub nanos: u32,
}

/// Largest distance from the epoch, in seconds, of a date-time that `chrono`
/// can hold (its years lie within about ±262,000).
pub const MAX_EPOCH_SECS: i64 = 10_000_000_000_000;

impl Instant {
    /// The instant lies in the range of date-times that `chrono` represents.
    pub open spec fn in_range(self) -> bool {
        -MAX_EPOCH_SECS < self.secs < MAX_EPOCH_SECS
    }
}

/// What `chrono::DateTime::parse_from_rfc3339` gives for a text, read as
/// (Unix seconds, nanoseconds past the second); `None` when the text is not
/// an RFC 3339 date-time.
pub uninterp spec fn rfc3339_instant(s: Seq<char>) -> Option<(i64, u32)>;

/// Parses an RFC 3339 date-time with `chrono::DateTime::parse_from_rfc3339`
/// and reads it with `timestamp` and `timestamp_subsec_nanos`.  Claimed: the
/// result is a function of the text alone (named `rfc3339_instant`), and a
/// parsed instant lies within the years `chrono::NaiveDate` can hold.
#[verifier::external_body]
pub(crate) fn parse_rfc3339(s: &str) -> (r: Option<Instant>)
    ensures
        match r {
            Some(t) => rfc3339_instant(s@) == Some((t.secs, t.nanos)) && t.in_range(),
            None => rfc3339_instant(s@) is None,
        },
{
    match chrono::DateTime::parse_from_rfc3339(s) {
        Ok(t) => Some(Instant { secs: t.timestamp(), nanos: t.timestamp_subsec_nanos() }),
        Err(_) => None,
    }
}

/// The instant an RFC 3339 text denotes, if it is one.
pub open spec fn spec_instant_of(s: Seq<char>) -> Option<Instant> {
    match rfc3339_instant(s) {
        Some((secs, nanos)) => Some(Instant { secs, nanos }),
        None => None,
    }
}

/// The instant an RFC 3339 text denotes; `None` when it is not one.
pub fn instant_of(s: &str) -> (r: Option<Instant>)
    ensures
        r == spec_instant_of(s@),
        r matches Some(t) ==> t.in_range(),
{
    parse_rfc3339(s)
}

/// Nanoseconds from `a` to `b`.
pub open spec fn nanos_between(a: Instant, b: Instant) -> int {
    (b.secs - a.secs) * 1_000_000_000 + (b.nanos - a.nanos)
}

/// Whole seconds of the plain difference from `a` to `b`, the fraction
/// dropped towards zero.
pub open spec fn truncated_seconds(a: Instant, b: Instant) -> int {
    let d = nanos_between(a, b);
    if d >= 0 {
        d / 1_000_000_000
    } else {
        -((-d) / 1_000_000_000)
    }
}

/// The first and last days, counted from 1970-01-01, that chrono's dates
/// hold: January 1 of year -262143 and December 31 of year 262142.
pub open spec fn chrono_first_day() -> int {
    -96_465_292
}

pub open spec fn chrono_last_day() -> int {
    95_026_236
}

/// `DateTime::from_timestamp(secs, nanos)` gives a date-time: its day lies
/// in chrono's range, and the nanoseconds reach past one second only in a
/// leap second, which ends a minute.
pub open spec fn chrono_holds(secs: int, nanos: int) -> bool {
    &&& chrono_first_day() <= secs / 86400 <= chrono_last_day()
    &&& nanos < 2_000_000_000
    &&& (nanos < 1_000_000_000 || secs % 60 == 59)
}

/// What chrono gives for the whole seconds from one instant to another:
/// `DateTime::from_timestamp` of each, then `b - a` and
/// `TimeDelta::num_seconds`.  Days count 86,400 seconds; within a day, a
/// leap second that lies between the two times counts as one more second
/// (`NaiveTime::signed_duration_since`); the total is truncated towards
/// zero.  `None` when chrono cannot hold one of them.
pub open spec fn chrono_seconds_between(a_secs: i64, a_nanos: u32, b_secs: i64, b_nanos: u32) -> Option<int> {
    if chrono_holds(a_secs as int, a_nanos as int) && chrono_holds(b_secs as int, b_nanos as int) {
        let ta = a_secs % 86400;
        let tb = b_secs % 86400;
        let s0 = tb - ta;
        let s1 = if tb > ta && a_nanos >= 1_000_000_000 {
            s0 + 1
        } else if tb < ta && b_nanos >= 1_000_000_000 {
            s0 - 1
        } else {
            s0
        };
        let total = ((b_secs / 86400 - a_secs / 86400) * 86400 + s1) * 1_000_000_000 + (b_nanos - a_nanos);
        Some(
            if total >= 0 {
                total / 1_000_000_000
            } else {
                -((-total) / 1_000_000_000)
            },
        )
    } else {
        None
    }
}

/// Counts whole seconds from `a` to `b` with chrono: `DateTime::from_timestamp`
/// of each, their difference `b - a`, and `TimeDelta::num_seconds`.
/// Claimed: the result is `chrono_seconds_between`, as chrono's
/// `from_timestamp`, `NaiveTime::signed_duration_since` and `num_seconds`
/// compute it.
#[verifier::external_body]
fn chrono_whole_seconds(a: Instant, b: Instant) -> (r: Option<i64>)
    ensures
        match r {
            Some(d) => chrono_seconds_between(a.secs, a.nanos, b.secs, b.nanos) == Some(d as int),
            None => chrono_seconds_between(a.secs, a.nanos, b.secs, b.nanos) is None,
        },
{
    match (chrono::DateTime::from_timestamp(a.secs, a.nanos), chrono::DateTime::from_timestamp(b.secs, b.nanos)) {
        (Some(x), Some(y)) => Some((y - x).num_seconds()),
        _ => None,
    }
}

/// Whole seconds from `a` to `b` as chrono counts them: away from leap
/// seconds (both nanosecond parts under one second) the plain difference
/// truncated towards zero; inside a leap second chrono's count, with the
/// leap second counted; for instants chrono cannot hold, the plain
/// difference truncated towards zero.
pub open spec fn seconds_between(a: Instant, b: Instant) -> int {
    if a.nanos < 1_000_000_000 && b.nanos < 1_000_000_000 {
        truncated_seconds(a, b)
    } else {
        match chrono_seconds_between(a.secs, a.nanos, b.secs, b.nanos) {
            Some(d) => d,
            None => truncated_seconds(a, b),
        }
    }
}

/// Whole seconds from `a` to `b`, as chrono's `(b - a).num_seconds()` gives.
pub fn whole_seconds_between(a: Instant, b: Instant) -> (r: i64)
    requires
        a.in_range(),
        b.in_range(),
    ensures
        r == seconds_between(a, b),
        (a.nanos < 1_000_000_000 && b.nanos < 1_000_000_000) ==> r == truncated_seconds(a, b),
{
    match chrono_whole_seconds(a, b) {
        Some(d) => return d,
        None => {},
    }
    let d: i128 = (b.secs as i128 - a.secs as i128) * 1_000_000_000i128 + (b.nanos as i128 - a.nanos as i128);
    let q: i128 = if d >= 0 {
        d / 1_000_000_000i128
    } else {
        -((-d) / 1_000_000_000i128)
    };
    assert(-9_223_372_036_854_775_808 <= q <= 9_223_372_036_854_775_807) by (nonlinear_arith)
        requires
            d == (b.secs - a.secs) * 1_000_000_000 + (b.nanos - a.nanos),
            q == (if d >= 0 { d / 1_000_000_000 } else { -((-d) / 1_000_000_000) }),
            -10_000_000_000_000 < a.secs < 10_000_000_000_000,
            -10_000_000_000_000 < b.secs < 10_000_000_000_000,
            0 <= a.nanos <= 4_294_967_295,
            0 <= b.nanos <= 4_294_967_295,
    ;
    q as i64
}

/// The proleptic Gregorian date (year, month, day) of a day counted from
/// 1970-01-01, years numbered astronomically (year 0 is 1 BCE).
pub open spec fn civil_from_day(day: int) -> (int, int, int) {
    let z = day + 719_468;
    let era = z / 146_097;
    let doe = z - era * 146_097;
    let yoe = (doe - doe / 1460 + doe / 36_524 - doe / 146_096) / 365;
    let doy = doe - (365 * yoe + yoe / 4 - yoe / 100);
    let mp = (5 * doy + 2) / 153;
    let d = doy - (153 * mp + 2) / 5 + 1;
    let m = if mp < 10 { mp + 3 } else { mp - 9 };
    (yoe + era * 400 + (if m <= 2 { 1int } else { 0int }), m, d)
}

/// What chrono gives for an instant read as a UTC date and time with
/// `chrono::DateTime::from_timestamp`: (year, month, day, hour, minute,
/// second, nanosecond), the second reading 59 and the nanoseconds past one
/// second inside a leap second; `None` when chrono cannot hold it.
pub open spec fn chrono_utc_fields(secs: i64, nanos: u32) -> Option<(i32, u32, u32, u32, u32, u32, u32)> {
    if chrono_holds(secs as int, nanos as int) {
        let date = civil_from_day(secs / 86400);
        let t = secs % 86400;
        Some(
            (
                date.0 as i32,
                date.1 as u32,
                date.2 as u32,
                (t / 3600) as u32,
                ((t % 3600) / 60) as u32,
                (t % 60) as u32,
                nanos,
            ),
        )
    } else {
        None
    }
}

/// Reads an instant as a UTC calendar date and time with
/// `chrono::DateTime::from_timestamp` and the `year`, `month`, `day`, `hour`,
/// `minute`, `second` and `nanosecond` accessors.  Claimed: the result is
/// `chrono_utc_fields`, the proleptic Gregorian date and the time of day
/// chrono computes.
#[verifier::external_body]
pub(crate) fn utc_fields(t: Instant) -> (r: Option<(i32, u32, u32, u32, u32, u32, u32)>)
    ensures
        r == chrono_utc_fields(t.secs, t.nanos),
{
    match chrono::DateTime::from_timestamp(t.secs, t.nanos) {
        Some(d) => Some((d.year(), d.month(), d.day(), d.hour(), d.minute(), d.second(), d.nanosecond())),
        None => None,
    }
}

} // verus!
