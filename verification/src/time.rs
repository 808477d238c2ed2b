//! Wall-clock instants, calendar dates and the event-time axis.
//!
//! An epoch is keyed by a calendar date and anchored at the instant it was
//! first observed. Every series is plotted against *event time*: the whole
//! minutes elapsed since that anchor.

use chrono::Datelike;
use vstd::prelude::*;

verus! {

/// Nanoseconds in one minute.
pub const NANOS_PER_MINUTE: i128 = 60_000_000_000;

/// Nanoseconds in one second.
pub const NANOS_PER_SECOND: i128 = 1_000_000_000;

/// Number of distinct values of a `u32`.
pub const U32_RANGE: u64 = 0x1_0000_0000;

/// An instant without time zone: whole seconds since 1970-01-01T00:00:00 and
/// the nanoseconds elapsed within that second.
#[derive(Clone, Copy, Debug, PartialEq, Eq, Structural)]
pub struct Timestamp {
    pub seconds: i64,
    pub nanos: u32,
}

/// A day of the proleptic Gregorian calendar.
#[derive(Clone, Copy, Debug, PartialEq, Eq, Structural)]
pub struct CalendarDate {
    pub year: i32,
    pub month: u32,
    pub day: u32,
}

/// Integer quotient rounded towards zero.
pub open spec fn quotient_towards_zero(a: int, b: int) -> int {
    if a >= 0 {
        a / b
    } else {
        -((-a) / b)
    }
}

/// Whole minutes from `from` to `to`, rounded towards zero; negative when `to`
/// lies before `from`.
pub open spec fn minutes_between(from: Timestamp, to: Timestamp) -> int {
    quotient_towards_zero(to.total_nanos() - from.total_nanos(), 60_000_000_000)
}

/// The width of the span between two instants in whole minutes, as it fits a `u32`.
pub open spec fn span_minutes(first: Timestamp, latest: Timestamp) -> int {
    let m = minutes_between(first, latest);
    (if m >= 0 { m } else { -m }) % 0x1_0000_0000
}

/// Chronological order of calendar dates.
pub open spec fn date_precedes(a: CalendarDate, b: CalendarDate) -> bool {
    a.year < b.year || (a.year == b.year && (a.month < b.month || (a.month == b.month && a.day
        < b.day)))
}

impl Timestamp {
    /// Nanoseconds since 1970-01-01T00:00:00.
    pub open spec fn total_nanos(self) -> int {
        self.seconds * 1_000_000_000 + self.nanos
    }

    /// Chronological order of instants.
    pub open spec fn precedes_or_equals(self, other: Timestamp) -> bool {
        self.total_nanos() <= other.total_nanos()
    }

    pub fn new(seconds: i64, nanos: u32) -> (r: Timestamp)
        ensures
            r.seconds == seconds,
            r.nanos == nanos,
    {
        Timestamp { seconds, nanos }
    }

    /// Whether `self` is not later than `other`.
    pub fn is_at_or_before(&self, other: &Timestamp) -> (r: bool)
        ensures
            r == self.precedes_or_equals(*other),
    {
        let a: i128 = self.seconds as i128 * NANOS_PER_SECOND + self.nanos as i128;
        let b: i128 = other.seconds as i128 * NANOS_PER_SECOND + other.nanos as i128;
        a <= b
    }
}

impl CalendarDate {
    pub fn new(year: i32, month: u32, day: u32) -> (r: CalendarDate)
        ensures
            r.year == year,
            r.month == month,
            r.day == day,
    {
        CalendarDate { year, month, day }
    }

    /// Whether `self` is an earlier day than `other`.
    pub fn is_before(&self, other: &CalendarDate) -> (r: bool)
        ensures
            r == date_precedes(*self, *other),
    {
        self.year < other.year || (self.year == other.year && (self.month < other.month || (
        self.month == other.month && self.day < other.day)))
    }
}

/// Event time of a poll: the whole minutes elapsed between the epoch's first
/// observation and the poll's query time.
pub fn event_time_minutes(first_ts: Timestamp, query_time: Timestamp) -> (r: i64)
    ensures
        r == minutes_between(first_ts, query_time),
{
    let from: i128 = first_ts.seconds as i128 * NANOS_PER_SECOND + first_ts.nanos as i128;
    let to: i128 = query_time.seconds as i128 * NANOS_PER_SECOND + query_time.nanos as i128;
    let minutes: i128 = (to - from) / NANOS_PER_MINUTE;
    minutes as i64
}

/// Age of an epoch in whole minutes: the distance between its first and its
/// latest observation, whichever order they come in.
pub fn duration_minutes(first_ts: Timestamp, latest_ts: Timestamp) -> (r: u32)
    ensures
        r == span_minutes(first_ts, latest_ts),
{
    let m: i64 = event_time_minutes(first_ts, latest_ts);
    let magnitude: u64 = if m >= 0 {
        m as u64
    } else {
        (-m) as u64
    };
    (magnitude % U32_RANGE) as u32
}

/// Event time never runs backwards: a later query time gives an event time at
/// least as large, and a query time at or after the epoch's first observation
/// gives a non-negative one.
pub proof fn lemma_event_time_monotonic(first_ts: Timestamp, earlier: Timestamp, later: Timestamp)
    requires
        earlier.precedes_or_equals(later),
    ensures
        minutes_between(first_ts, earlier) <= minutes_between(first_ts, later),
        first_ts.precedes_or_equals(earlier) ==> 0 <= minutes_between(first_ts, earlier),
{
}

/// Polls taken in wall-clock order carry non-decreasing event times.
pub proof fn lemma_event_times_non_decreasing(first_ts: Timestamp, query_times: Seq<Timestamp>)
    requires
        forall|i: int, j: int|
            0 <= i <= j < query_times.len() ==> (#[trigger] query_times[i]).precedes_or_equals(
                #[trigger] query_times[j],
            ),
    ensures
        forall|i: int, j: int|
            0 <= i <= j < query_times.len() ==> minutes_between(first_ts, #[trigger] query_times[i])
                <= minutes_between(first_ts, #[trigger] query_times[j]),
{
}

/// What `chrono` reads out of a text as a `%Y-%m-%d` date, if anything.
pub uninterp spec fn parsed_calendar_date(text: Seq<char>) -> Option<CalendarDate>;

/// What `chrono` writes for a day under the pattern `%Y-%m-%d`; `None` for a
/// triple that is no day of its calendar.
pub uninterp spec fn formatted_calendar_date(year: int, month: int, day: int) -> Option<Seq<char>>;

impl CalendarDate {
    /// The `%Y-%m-%d` text of this day, if it is a day of the calendar.
    pub open spec fn rendering(self) -> Option<Seq<char>> {
        formatted_calendar_date(self.year as int, self.month as int, self.day as int)
    }
}

/// Calls `chrono::NaiveDate::parse_from_str` with the pattern `%Y-%m-%d` and
/// hands out year, month and day of the date it returns. Trusted: the result
/// is a function of the text alone.
#[verifier::external_body]
pub(crate) fn parse_calendar_date(text: &str) -> (r: Option<CalendarDate>)
    ensures
        r == parsed_calendar_date(text@),
{
    match chrono::NaiveDate::parse_from_str(text, "%Y-%m-%d") {
        Ok(d) => Some(CalendarDate { year: d.year(), month: d.month(), day: d.day() }),
        Err(_) => None,
    }
}

/// Reads a reset date as the remote service and the requests write it:
/// year, month and day, joined by `-`.
pub fn parse_reset_date(text: &str) -> (r: Option<CalendarDate>)
    ensures
        r == parsed_calendar_date(text@),
{
    parse_calendar_date(text)
}

/// Calls `chrono::NaiveDate::format` with the pattern `%Y-%m-%d` on the day
/// that `chrono::NaiveDate::from_ymd_opt` makes of the triple. Trusted: the
/// text is a function of year, month and day alone, and there is none where
/// `chrono` knows no such day.
#[verifier::external_body]
pub(crate) fn format_calendar_date(date: &CalendarDate) -> (r: Option<String>)
    ensures
        formatted_calendar_date(date.year as int, date.month as int, date.day as int) == match r {
            Some(s) => Some(s@),
            None => None,
        },
{
    match chrono::NaiveDate::from_ymd_opt(date.year, date.month, date.day) {
        Some(d) => Some(d.format("%Y-%m-%d").to_string()),
        None => None,
    }
}

} // verus!
