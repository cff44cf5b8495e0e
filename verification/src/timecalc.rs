//! Calendar arithmetic on timestamps.
//!
//! Arithmetic on seconds since the epoch is done here and proved.  Whatever
//! needs the calendar (parsing a timestamp, naming a day, moving to another
//! day of the month) is left to the crate `chrono`; its results are named,
//! and what this module proves about them is what it does with them.

use chrono::{DateTime, Datelike, Utc};
use vstd::prelude::*;

verus! {

/// Seconds in one UTC day.
pub const SECONDS_PER_DAY: u64 = 86_400;

/// Days in the fourteen-day window of the traffic API.
pub const WINDOW_DAYS: u32 = 14;

/// The UTC day that a moment falls on, counted from the Unix epoch.
pub open spec fn day_of(moment: u64) -> u64 {
    moment / SECONDS_PER_DAY
}

/// Seconds from a moment to the next UTC midnight: at least one, at most a
/// whole day.
pub open spec fn until_midnight(moment: u64) -> u64 {
    (SECONDS_PER_DAY - moment % SECONDS_PER_DAY) as u64
}

/// The UTC day that a moment falls on.
pub fn utc_day(moment: u64) -> (day: u64)
    ensures
        day == day_of(moment),
{
    moment / SECONDS_PER_DAY
}

/// Seconds from `now` to the next UTC midnight.
pub fn next_utc_day(now: u64) -> (seconds: u64)
    ensures
        seconds == until_midnight(now),
        1 <= seconds <= SECONDS_PER_DAY,
        (now + seconds) % (SECONDS_PER_DAY as int) == 0,
        day_of(now) + 1 == (now + seconds) / (SECONDS_PER_DAY as int),
{
    SECONDS_PER_DAY - now % SECONDS_PER_DAY
}

/// A moment, given in seconds since the epoch, written as the traffic API
/// writes timestamps; `None` where the calendar cannot hold the moment.
pub uninterp spec fn utc_timestamp_text(seconds: i64) -> Option<Seq<char>>;

/// The day of the month, in UTC, of a timestamp in the format of RFC 3339;
/// `None` where the text is no such timestamp.
pub uninterp spec fn utc_day_of_month(timestamp: Seq<char>) -> Option<u32>;

/// A timestamp in the format of RFC 3339, moved to another day of its month
/// and written as the traffic API writes it; `None` where the text is no such
/// timestamp or its month has no such day.
pub uninterp spec fn moved_to_day(timestamp: Seq<char>, day: u32) -> Option<Seq<char>>;

/// Writes a moment down with `chrono`: `DateTime::from_timestamp`, then
/// `format`.  Trusted: the text depends on the moment alone.
#[verifier::external_body]
fn chrono_utc_timestamp_text(seconds: i64) -> (text: Option<String>)
    ensures
        text is Some <==> utc_timestamp_text(seconds) is Some,
        text is Some ==> text->Some_0@ == utc_timestamp_text(seconds)->Some_0,
{
    DateTime::from_timestamp(seconds, 0).map(|moment| moment.format("%Y-%m-%dT%H:%M:%SZ").to_string())
}

/// Parses a timestamp with `chrono::DateTime::parse_from_rfc3339` and reads
/// its day of the month in UTC.  Trusted: the day depends on the text alone
/// and lies between 1 and 31.
#[verifier::external_body]
fn chrono_utc_day_of_month(timestamp: &String) -> (day: Option<u32>)
    ensures
        day == utc_day_of_month(timestamp@),
        day is Some ==> 1 <= day->Some_0 <= 31,
{
    DateTime::parse_from_rfc3339(timestamp.as_str()).ok().map(|time| time.with_timezone(&Utc).day())
}

/// Parses a timestamp with `chrono::DateTime::parse_from_rfc3339`, moves it
/// with `with_day` and writes it down with `format`.  Trusted: the text
/// depends on the timestamp and the day alone.
#[verifier::external_body]
fn chrono_moved_to_day(timestamp: &String, day: u32) -> (text: Option<String>)
    ensures
        text is Some <==> moved_to_day(timestamp@, day) is Some,
        text is Some ==> text->Some_0@ == moved_to_day(timestamp@, day)->Some_0,
{
    DateTime::parse_from_rfc3339(timestamp.as_str())
        .ok()
        .and_then(|time| time.with_day(day))
        .map(|past| past.format("%Y-%m-%dT%H:%M:%SZ").to_string())
}

/// Why a timestamp cannot be computed.
#[derive(Debug, Clone, Copy, PartialEq, Eq, Structural)]
pub enum TimeError {
    /// The calendar cannot hold the moment.
    OutOfRange,
    /// The text is no timestamp in the format of RFC 3339.
    Unparsable,
    /// The month of the timestamp is not yet two weeks old: two weeks
    /// earlier lies in another month.
    MonthTooYoung { day: u32 },
    /// The month of the timestamp has no such day.
    NoSuchDay { day: u32 },
}

/// The view of an outcome that carries text.
pub open spec fn text_view(outcome: Result<String, TimeError>) -> Result<Seq<char>, TimeError> {
    match outcome {
        Ok(text) => Ok(text@),
        Err(error) => Err(error),
    }
}

/// The UTC midnight that began the day of a moment.
pub open spec fn day_start(moment: u64) -> u64 {
    (moment - moment % SECONDS_PER_DAY) as u64
}

/// What asking for the datestamp of a moment yields: the midnight that began
/// its day, as the calendar writes it, if the calendar can hold it.
pub open spec fn datestamp_at(now: u64) -> Result<Seq<char>, TimeError> {
    if day_start(now) > i64::MAX {
        Err(TimeError::OutOfRange)
    } else {
        match utc_timestamp_text(day_start(now) as i64) {
            Some(text) => Ok(text),
            None => Err(TimeError::OutOfRange),
        }
    }
}

/// The timestamp of the UTC midnight that began the day of `now`.
pub fn get_utc_datestamp(now: u64) -> (datestamp: Result<String, TimeError>)
    ensures
        text_view(datestamp) == datestamp_at(now),
{
    let midnight = now - now % SECONDS_PER_DAY;
    if midnight > 0x7fff_ffff_ffff_ffff {
        return Err(TimeError::OutOfRange);
    }
    match chrono_utc_timestamp_text(midnight as i64) {
        Some(text) => Ok(text),
        None => Err(TimeError::OutOfRange),
    }
}

/// The day of the month two weeks before a day of the same month, if the
/// month is that old.
pub open spec fn two_weeks_before(day: u32) -> Option<u32> {
    if day > WINDOW_DAYS {
        Some((day - WINDOW_DAYS) as u32)
    } else {
        None
    }
}

/// The day of the month two weeks before `day`, if that lies in the same
/// month.
pub fn day_two_weeks_before(day: u32) -> (earlier: Option<u32>)
    ensures
        earlier == two_weeks_before(day),
{
    if day > WINDOW_DAYS {
        Some(day - WINDOW_DAYS)
    } else {
        None
    }
}

/// What moving a timestamp back by two weeks yields, given its day of the
/// month in UTC and what the calendar makes of the move.
pub open spec fn two_weeks_earlier(timestamp: Seq<char>) -> Result<Seq<char>, TimeError> {
    match utc_day_of_month(timestamp) {
        None => Err(TimeError::Unparsable),
        Some(day) => match two_weeks_before(day) {
            None => Err(TimeError::MonthTooYoung { day }),
            Some(earlier) => match moved_to_day(timestamp, earlier) {
                Some(text) => Ok(text),
                None => Err(TimeError::NoSuchDay { day: earlier }),
            },
        },
    }
}

/// Moves a timestamp back by two weeks within its month.
pub fn subtract_two_weeks(timestamp: &String) -> (earlier: Result<String, TimeError>)
    ensures
        text_view(earlier) == two_weeks_earlier(timestamp@),
{
    let day = match chrono_utc_day_of_month(timestamp) {
        Some(day) => day,
        None => {
            return Err(TimeError::Unparsable);
        },
    };
    let earlier = match day_two_weeks_before(day) {
        Some(earlier) => earlier,
        None => {
            return Err(TimeError::MonthTooYoung { day });
        },
    };
    match chrono_moved_to_day(timestamp, earlier) {
        Some(text) => Ok(text),
        None => Err(TimeError::NoSuchDay { day: earlier }),
    }
}

} // verus!
