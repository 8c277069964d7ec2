//! Points in time, and the clock that they are read from.

use vstd::prelude::*;

verus! {

/// The last second of the calendar: 23:59:59 on December 31, 262142.
pub const MAX_SECS: i64 = 8_210_266_876_799;

/// The first second of the calendar: 00:00:00 on January 1, -262143.
pub const MIN_SECS: i64 = -8_334_601_228_800;

/// The number of nanoseconds in a second.
pub const NANOS_PER_SEC: u32 = 1_000_000_000;

/// A point in time in UTC.
///
/// `secs` counts the non-leap seconds since January 1, 1970, and `nanos` the nanoseconds since
/// the start of that second. During a leap second `nanos` runs on past a full second.
#[derive(Clone, Copy, Debug, PartialEq, Eq, Structural)]
pub struct Timestamp {
    pub secs: i64,
    pub nanos: u32,
}

impl Timestamp {
    /// Whether the calendar covers this point in time, leap seconds left aside.
    pub open spec fn in_calendar(self) -> bool {
        &&& MIN_SECS <= self.secs <= MAX_SECS
        &&& self.nanos < NANOS_PER_SEC
    }

    /// Whether `self` is earlier than `other`.
    pub open spec fn before(self, other: Timestamp) -> bool {
        self.secs < other.secs || (self.secs == other.secs && self.nanos < other.nanos)
    }

    /// Whether `self` is earlier than `other`, or the same.
    pub open spec fn at_or_before(self, other: Timestamp) -> bool {
        self == other || self.before(other)
    }

    /// The point in time `seconds` later.
    pub open spec fn plus(self, seconds: int) -> Timestamp {
        Timestamp { secs: (self.secs + seconds) as i64, nanos: self.nanos }
    }

    /// Whether `self` is earlier than `other`.
    pub fn is_before(&self, other: &Timestamp) -> (earlier: bool)
        ensures
            earlier == self.before(*other),
    {
        self.secs < other.secs || (self.secs == other.secs && self.nanos < other.nanos)
    }

    /// Whether `self` is earlier than `other`, or the same.
    pub fn is_at_or_before(&self, other: &Timestamp) -> (reached: bool)
        ensures
            reached == self.at_or_before(*other),
    {
        !other.is_before(self)
    }
}

/// Reads the clock with `chrono::Utc::now`.
///
/// What is believed of it: a clock reading lies within the calendar, and is never inside a leap
/// second. Nothing relates one reading to another.
#[verifier::external_body]
pub(crate) fn utc_now() -> (now: Timestamp)
    ensures
        now.in_calendar(),
{
    let now = chrono::Utc::now();
    Timestamp { secs: now.timestamp(), nanos: now.timestamp_subsec_nanos() }
}

/// Whether `time` is what the clock showed when it was read. No other time is known to be.
pub closed spec fn read_from_clock(time: Timestamp) -> bool {
    call_ensures(utc_now, (), time)
}

/// Reads the clock.
pub(crate) fn read_clock() -> (now: Timestamp)
    ensures
        read_from_clock(now),
        now.in_calendar(),
{
    utc_now()
}

/// Adds seconds to a point in time with `chrono::DateTime::checked_add_signed`.
///
/// What is believed of it: outside leap seconds the sum moves the seconds and keeps the
/// nanoseconds, and there is no sum exactly when it would leave the calendar.
/// `chrono::Duration::seconds` panics on more than `i64::MAX / 1000` seconds either way.
#[verifier::external_body]
pub(crate) fn checked_add_seconds(start: Timestamp, seconds: i64) -> (sum: Option<Timestamp>)
    requires
        start.in_calendar(),
        -9_223_372_036_854_775 <= seconds <= 9_223_372_036_854_775,
    ensures
        sum == if MIN_SECS <= start.secs + seconds <= MAX_SECS {
            Some(start.plus(seconds as int))
        } else {
            None
        },
{
    let start = chrono::DateTime::from_timestamp(start.secs, start.nanos).unwrap();
    match start.checked_add_signed(chrono::Duration::seconds(seconds)) {
        Some(sum) => Some(Timestamp { secs: sum.timestamp(), nanos: sum.timestamp_subsec_nanos() }),
        None => None,
    }
}

/// Points in time are totally ordered: of two, one is before the other or they are the same,
/// never both, and what is before an earlier point is before a later one.
pub proof fn law_time_is_a_total_order(a: Timestamp, b: Timestamp, c: Timestamp)
    ensures
        a.at_or_before(b) || b.at_or_before(a),
        a.at_or_before(b) && b.at_or_before(a) ==> a == b,
        a.at_or_before(b) && b.at_or_before(c) ==> a.at_or_before(c),
        a.before(b) <==> !b.at_or_before(a),
{
}

/// Only a reading of the clock itself counts as one, and a reading lies within the calendar.
pub(crate) proof fn law_a_reading_is_what_the_clock_showed(time: Timestamp)
    ensures
        read_from_clock(time) <==> call_ensures(utc_now, (), time),
        read_from_clock(time) ==> time.in_calendar(),
{
}

/// Of two points in time the one is before the other whose seconds are fewer, nanoseconds
/// breaking ties: as if both were counted in units of a 4294967296th of a second.
pub proof fn law_time_is_counted(a: Timestamp, b: Timestamp)
    ensures
        a.before(b) <==> a.secs * 4_294_967_296 + a.nanos < b.secs * 4_294_967_296 + b.nanos,
        a.at_or_before(b) <==> a.secs * 4_294_967_296 + a.nanos <= b.secs * 4_294_967_296 + b.nanos,
{
}

/// The calendar runs from the first second of the year -262143 to the last of the year 262142, and
/// a second later is a second more, as long as it can be written down.
pub proof fn law_the_calendar_has_bounds(time: Timestamp, seconds: int)
    ensures
        time.in_calendar() <==> -8_334_601_228_800 <= time.secs <= 8_210_266_876_799 && time.nanos
            < 1_000_000_000,
        i64::MIN <= time.secs + seconds <= i64::MAX ==> time.plus(seconds).secs == time.secs
            + seconds,
        time.plus(seconds).nanos == time.nanos,
{
}

} // verus!
