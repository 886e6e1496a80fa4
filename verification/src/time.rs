//! Points in time, and the time between two of them.

use vstd::prelude::*;
use chrono::{TimeZone, Utc};

verus! {

/// The nanoseconds of a second.
pub const NANOS_PER_SECOND: u64 = 1_000_000_000;

/// The nanoseconds of a millisecond.
pub const NANOS_PER_MILLI: u64 = 1_000_000;

/// A point in time, in nanoseconds since the Unix epoch.
#[derive(Debug, Clone, Copy, PartialEq, Eq, Structural)]
pub struct Timestamp {
    pub unix_nanos: u64,
}

impl Timestamp {
    /// The whole milliseconds since the Unix epoch.
    pub open spec fn millis(self) -> int {
        self.unix_nanos as int / 1_000_000
    }

    /// The whole milliseconds since the Unix epoch.
    pub fn unix_millis(&self) -> (ms: i64)
        ensures
            ms == self.millis(),
    {
        (self.unix_nanos / NANOS_PER_MILLI) as i64
    }

    /// The whole seconds since the Unix epoch.
    pub fn unix_seconds(&self) -> (secs: i64)
        ensures
            secs == self.unix_nanos as int / 1_000_000_000,
    {
        (self.unix_nanos / NANOS_PER_SECOND) as i64
    }

    /// The time as RFC 3339 text.
    pub open spec fn rfc3339(self) -> Seq<char> {
        rfc3339_text(self.unix_nanos as int / 1_000_000_000, self.unix_nanos as int % 1_000_000_000)
    }

    /// The time as RFC 3339 text.
    pub fn to_rfc3339(&self) -> (text: String)
        ensures
            text@ == self.rfc3339(),
    {
        proof {
            unsigned_times_are_representable(self.unix_nanos);
        }
        utc_rfc3339(self.unix_seconds(), self.subsec_nanos()).unwrap()
    }

    /// The nanoseconds past the whole second.
    pub fn subsec_nanos(&self) -> (nanos: u32)
        ensures
            nanos == self.unix_nanos as int % 1_000_000_000,
    {
        (self.unix_nanos % NANOS_PER_SECOND) as u32
    }
}

/// The day of the Unix epoch, counted from the first day of the year 1.
pub const UNIX_EPOCH_DAY: i64 = 719_163;

/// The first day that chrono has a date for, counted from the first day of the year 1:
/// the first of January of the year -262143.
pub const MIN_DAY: i64 = -95_746_129;

/// The last day that chrono has a date for, counted from the first day of the year 1:
/// the last of December of the year 262142.
pub const MAX_DAY: i64 = 95_745_399;

/// The seconds of a day.
pub const SECONDS_PER_DAY: i64 = 86_400;

/// Whether chrono has a UTC time for `secs` seconds and `nanos` nanoseconds after the
/// Unix epoch: the day lies within its calendar, and the nanoseconds are below a
/// second, or below two seconds in the last second of a minute (a leap second).
pub open spec fn utc_representable(secs: int, nanos: int) -> bool {
    let day = secs / (SECONDS_PER_DAY as int) + UNIX_EPOCH_DAY;
    let second_of_day = secs % (SECONDS_PER_DAY as int);
    &&& MIN_DAY <= day <= MAX_DAY
    &&& 0 <= nanos < 2_000_000_000
    &&& (nanos < 1_000_000_000 || second_of_day % 60 == 59)
}

/// Whether a time in nanoseconds since the epoch is representable.
pub open spec fn nanos_representable(nano: u64) -> bool {
    utc_representable(nano as int / 1_000_000_000, nano as int % 1_000_000_000)
}

/// Every time that a `u64` of nanoseconds since the epoch can name is representable:
/// the last of them lies in the year 2554.
pub proof fn unsigned_times_are_representable(nano: u64)
    ensures
        nanos_representable(nano),
{
    let secs = nano as int / 1_000_000_000;
    assert(0 <= secs <= 18_446_744_073);
    assert(0 <= secs / 86_400 <= 213_503);
}

/// Asks `chrono::Utc.timestamp_opt` whether it has a single time for these seconds and
/// nanoseconds. It has one where the day, counted by Euclidean division of the seconds,
/// is one of chrono's calendar and the time of day with these nanoseconds exists.
#[verifier::external_body]
fn utc_accepts(secs: i64, nanos: u32) -> (ok: bool)
    ensures
        ok == utc_representable(secs as int, nanos as int),
{
    Utc.timestamp_opt(secs, nanos).single().is_some()
}

/// The RFC 3339 text of the UTC time `secs` seconds and `nanos` nanoseconds after the
/// Unix epoch, as chrono renders it.
pub uninterp spec fn rfc3339_text(secs: int, nanos: int) -> Seq<char>;

/// Renders the time that `chrono::Utc.timestamp_opt` has for these seconds and
/// nanoseconds with `DateTime::to_rfc3339`; `None` where it has no single time.
#[verifier::external_body]
fn utc_rfc3339(secs: i64, nanos: u32) -> (r: Option<String>)
    ensures
        r is Some <==> utc_representable(secs as int, nanos as int),
        r matches Some(text) ==> text@ == rfc3339_text(secs as int, nanos as int),
{
    Utc.timestamp_opt(secs, nanos).single().map(|time| time.to_rfc3339())
}

/// The timestamp of a time given in nanoseconds, where it is representable; every
/// such time is.
pub fn format_utc(nano: u64) -> (r: Option<Timestamp>)
    ensures
        r == if nanos_representable(nano) {
            Some(Timestamp { unix_nanos: nano })
        } else {
            None
        },
        r == Some(Timestamp { unix_nanos: nano }),
{
    proof {
        unsigned_times_are_representable(nano);
    }
    let secs = (nano / NANOS_PER_SECOND) as i64;
    let nanos = (nano % NANOS_PER_SECOND) as u32;
    if utc_accepts(secs, nanos) {
        Some(Timestamp { unix_nanos: nano })
    } else {
        None
    }
}

/// The difference of two times in whole milliseconds, cut to 32 bits.
pub open spec fn duration_ms(start: Timestamp, end: Timestamp) -> i32 {
    (end.millis() - start.millis()) as i32
}

/// The time from `start` to `end` in whole milliseconds: the difference of the two
/// millisecond counts, of which the low 32 bits are kept.
pub fn calculate_duration(start: &Timestamp, end: &Timestamp) -> (d: i32)
    ensures
        d == duration_ms(*start, *end),
        i32::MIN <= end.millis() - start.millis() <= i32::MAX ==> d == end.millis()
            - start.millis(),
{
    let diff: i64 = end.unix_millis() - start.unix_millis();
    #[verifier::truncate]
    (diff as i32)
}

} // verus!
