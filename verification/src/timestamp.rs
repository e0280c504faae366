//! Instants with the local offset they are shown in.

use std::fmt::Write;
use vstd::prelude::*;
use crate::convertor::option_text;

verus! {

/// An instant, and the offset of the local time it is shown in.
#[derive(Clone, Copy, Debug)]
pub struct Timestamp {
    /// Seconds since the start of 1970 in UTC.
    pub seconds: i64,
    /// Nanoseconds into that second.
    pub nanos: u32,
    /// Seconds that local time is ahead of UTC.
    pub offset: i32,
}

/// The text of an instant in a `strftime` pattern, as `chrono` writes it for
/// the local time that is `offset` seconds ahead of UTC; `None` where `chrono`
/// cannot represent the instant or the offset, or cannot write the pattern.
pub uninterp spec fn clock_text(seconds: i64, nanos: u32, offset: i32, pattern: Seq<char>) -> Option<
    Seq<char>,
>;

/// Calls `chrono::FixedOffset::east_opt`, `chrono::DateTime::from_timestamp`,
/// `DateTime::with_timezone` and `DateTime::format`, and writes the result into
/// a string. The text depends on the four arguments alone. Gives `None` where
/// one of the calls refuses its arguments.
#[verifier::external_body]
fn clock(seconds: i64, nanos: u32, offset: i32, pattern: &str) -> (r: Option<String>)
    ensures
        option_text(r) == clock_text(seconds, nanos, offset, pattern@),
{
    let zone = chrono::FixedOffset::east_opt(offset)?;
    let at = chrono::DateTime::from_timestamp(seconds, nanos)?.with_timezone(&zone);
    let mut text = String::new();
    write!(text, "{}", at.format(pattern)).ok()?;
    Some(text)
}

/// Calls `chrono::Local` and `TimeZone::timestamp_opt` for the start of the
/// second, and `Offset::fix`. The offset is that of this machine's time zone at
/// the instant, so nothing is said of its value but its range: a fixed offset
/// is always less than a day. `timestamp_opt` gives no local time only where
/// `DateTime::from_timestamp` refuses the second, and then the instant cannot
/// be written in UTC either.
#[verifier::external_body]
pub(crate) fn local_offset(seconds: i64) -> (r: Option<i32>)
    ensures
        r matches Some(offset) ==> -86_400 < offset < 86_400,
        r is None ==> clock_text(seconds, 0, 0, minute_pattern()) is None,
{
    let at = chrono::TimeZone::timestamp_opt(&chrono::Local, seconds, 0).single()?;
    Some(chrono::Offset::fix(at.offset()).local_minus_utc())
}

/// The pattern of a date and time of day to the minute.
pub open spec fn minute_pattern() -> Seq<char> {
    "%Y-%m-%d %H:%M"@
}

/// The pattern of a date.
pub open spec fn day_pattern() -> Seq<char> {
    "%Y-%m-%d"@
}

/// `x / d` rounded towards zero, for a positive `d`.
pub open spec fn truncated(x: int, d: int) -> int {
    if x >= 0 {
        x / d
    } else {
        -((-x) / d)
    }
}

impl Timestamp {
    /// The date and time of day in local time, to the minute.
    pub open spec fn minute_text(self) -> Option<Seq<char>> {
        clock_text(self.seconds, self.nanos, self.offset, minute_pattern())
    }

    /// The date in local time.
    pub open spec fn day_text(self) -> Option<Seq<char>> {
        clock_text(self.seconds, self.nanos, self.offset, day_pattern())
    }

    /// The number of the local calendar day: days since the start of 1970.
    pub open spec fn local_day(self) -> int {
        (self.seconds + self.offset) / 86_400
    }

    /// Nanoseconds from `earlier` to this instant.
    pub open spec fn nanos_since(self, earlier: Timestamp) -> int {
        (self.seconds - earlier.seconds) * 1_000_000_000 + (self.nanos - earlier.nanos)
    }

    /// Whether at most five minutes lie between `earlier` and this instant.
    /// An instant before `earlier` is within them.
    pub open spec fn is_within_five_minutes_of(self, earlier: Timestamp) -> bool {
        self.nanos_since(earlier) <= 300_000_000_000
    }

    /// The date and time of day in local time, to the minute, as
    /// `2021-03-04 05:06`.
    pub fn format_minute(&self) -> (r: Option<String>)
        ensures
            option_text(r) == self.minute_text(),
    {
        clock(self.seconds, self.nanos, self.offset, "%Y-%m-%d %H:%M")
    }

    /// The date in local time, as `2021-03-04`.
    pub fn format_day(&self) -> (r: Option<String>)
        ensures
            option_text(r) == self.day_text(),
    {
        clock(self.seconds, self.nanos, self.offset, "%Y-%m-%d")
    }

    /// Whether this instant and `other` fall on the same local calendar day,
    /// each in its own offset.
    pub fn same_day(&self, other: &Timestamp) -> (r: bool)
        ensures
            r == (self.local_day() == other.local_day()),
    {
        day_number(self.seconds, self.offset) == day_number(other.seconds, other.offset)
    }

    /// Whether at most five minutes lie between `earlier` and this instant.
    /// An instant before `earlier` is within them.
    pub fn within_five_minutes_of(&self, earlier: &Timestamp) -> (r: bool)
        ensures
            r == self.is_within_five_minutes_of(*earlier),
    {
        let seconds: i128 = self.seconds as i128 - earlier.seconds as i128;
        let nanos: i128 = self.nanos as i128 - earlier.nanos as i128;
        let between: i128 = seconds * 1_000_000_000 + nanos;
        between <= 300_000_000_000
    }
}

/// The number of the day that the second `seconds + offset` falls on.
fn day_number(seconds: i64, offset: i32) -> (day: i128)
    ensures
        day == (seconds + offset) / 86_400,
{
    let local: i128 = seconds as i128 + offset as i128;
    if local >= 0 {
        local / 86_400
    } else {
        let back: i128 = (-local + 86_399) / 86_400;
        -back
    }
}

} // verus!
