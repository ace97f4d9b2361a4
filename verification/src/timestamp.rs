//! Points in time carried as plain values: whole seconds since the Unix epoch
//! and the nanosecond within that second.

use vstd::prelude::*;
use time::format_description::well_known::Rfc3339;
use time::OffsetDateTime;

verus! {

#[derive(Clone, Copy, Debug, PartialEq, Eq, Structural, Hash, PartialOrd, Ord)]
pub struct Timestamp {
    pub unix_seconds: i64,
    pub nanosecond: u32,
}

/// Chronological order: by second, then by nanosecond.
pub open spec fn ts_le(a: Timestamp, b: Timestamp) -> bool {
    a.unix_seconds < b.unix_seconds || (a.unix_seconds == b.unix_seconds && a.nanosecond
        <= b.nanosecond)
}

pub open spec fn ts_lt(a: Timestamp, b: Timestamp) -> bool {
    ts_le(a, b) && a != b
}

/// `b - a` in whole seconds, saturated to the `i64` range.
pub open spec fn saturating_age(a: int, b: int) -> int {
    let d = b - a;
    if d > i64::MAX {
        i64::MAX as int
    } else if d < i64::MIN {
        i64::MIN as int
    } else {
        d
    }
}

impl Timestamp {
    pub fn from_unix_timestamp(unix_seconds: i64) -> (t: Timestamp)
        ensures
            t.unix_seconds == unix_seconds,
            t.nanosecond == 0,
    {
        Timestamp { unix_seconds, nanosecond: 0 }
    }

    pub fn unix_timestamp(&self) -> (s: i64)
        ensures
            s == self.unix_seconds,
    {
        self.unix_seconds
    }

    pub fn le(&self, other: &Timestamp) -> (b: bool)
        ensures
            b == ts_le(*self, *other),
    {
        self.unix_seconds < other.unix_seconds || (self.unix_seconds == other.unix_seconds
            && self.nanosecond <= other.nanosecond)
    }

    pub fn lt(&self, other: &Timestamp) -> (b: bool)
        ensures
            b == ts_lt(*self, *other),
    {
        self.unix_seconds < other.unix_seconds || (self.unix_seconds == other.unix_seconds
            && self.nanosecond < other.nanosecond)
    }

    /// Whole seconds from `earlier` to `self`, saturating at the `i64` bounds.
    pub fn seconds_since(&self, earlier: &Timestamp) -> (d: i64)
        ensures
            d as int == saturating_age(earlier.unix_seconds as int, self.unix_seconds as int),
    {
        let a = earlier.unix_seconds as i128;
        let b = self.unix_seconds as i128;
        let d = b - a;
        if d > i64::MAX as i128 {
            i64::MAX
        } else if d < i64::MIN as i128 {
            i64::MIN
        } else {
            d as i64
        }
    }
}

/// The earliest and latest whole seconds the `time` crate represents
/// (years -9999 and 9999, without its `large-dates` feature).
pub const MIN_UNIX_SECONDS: i64 = -377_705_116_800i64;

pub const MAX_UNIX_SECONDS: i64 = 253_402_300_799i64;

/// The instant that `OffsetDateTime::parse` with the RFC 3339 format reads
/// from the text, where it reads one.
pub uninterp spec fn rfc3339_instant(text: Seq<char>) -> Option<Timestamp>;

/// `OffsetDateTime::from_unix_timestamp_nanos`: the source (offset_date_time.rs)
/// floors the nanoseconds to whole seconds, refuses seconds outside the
/// crate's date range, and keeps the Euclidean remainder as the nanosecond.
#[verifier::external_body]
pub fn from_unix_timestamp_nanos(nanos: i128) -> (r: Option<Timestamp>)
    ensures
        r is Some <==> MIN_UNIX_SECONDS <= nanos / 1_000_000_000 <= MAX_UNIX_SECONDS,
        r matches Some(t) ==> t.unix_seconds == nanos / 1_000_000_000 && t.nanosecond == nanos % 1_000_000_000,
{
    match OffsetDateTime::from_unix_timestamp_nanos(nanos) {
        Ok(t) => Some(Timestamp { unix_seconds: t.unix_timestamp(), nanosecond: t.nanosecond() }),
        Err(_) => None,
    }
}

/// `OffsetDateTime::parse(text, &Rfc3339)`, named by `rfc3339_instant`; on
/// failure it gives the parse error's message, whose wording is not stated.
#[verifier::external_body]
pub fn parse_rfc3339(text: &str) -> (r: Result<Timestamp, String>)
    ensures
        r is Ok <==> rfc3339_instant(text@) is Some,
        r matches Ok(t) ==> rfc3339_instant(text@) == Some(t),
{
    match OffsetDateTime::parse(text, &Rfc3339) {
        Ok(t) => Ok(Timestamp { unix_seconds: t.unix_timestamp(), nanosecond: t.nanosecond() }),
        Err(error) => Err(error.to_string()),
    }
}

/// `OffsetDateTime::now_utc`: the system clock's reading, which depends on
/// when it is called; only that its nanosecond lies below one second is
/// stated.
#[verifier::external_body]
pub fn now_utc() -> (t: Timestamp)
    ensures
        t.nanosecond < 1_000_000_000,
{
    let now = OffsetDateTime::now_utc();
    Timestamp { unix_seconds: now.unix_timestamp(), nanosecond: now.nanosecond() }
}

} // verus!
