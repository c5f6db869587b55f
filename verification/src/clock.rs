//! Instants, and the local wall clock that cron expressions are read against.

use chrono::{Datelike, TimeZone, Timelike};
use vstd::prelude::*;

verus! {

/// An instant with the local time in force at it: seconds and nanoseconds since
/// the epoch, and how many seconds the local time is ahead of universal time.
#[derive(Clone, Copy, Debug, PartialEq, Eq)]
pub struct Stamp {
    pub secs: i64,
    pub nanos: u32,
    pub offset: i32,
}

/// What a wall clock and a calendar show at some minute. `weekday` counts from
/// Sunday.
#[derive(Clone, Copy, Debug, PartialEq, Eq)]
pub struct Wall {
    pub minute: u32,
    pub hour: u32,
    pub day: u32,
    pub month: u32,
    pub weekday: u32,
}

/// The seconds that the calendar covers.
pub open spec fn in_calendar(secs: int) -> bool {
    -8_200_000_000_000 <= secs <= 8_200_000_000_000
}

/// An offset of a time zone is less than a day.
pub open spec fn offset_ok(offset: int) -> bool {
    -86_400 < offset < 86_400
}

/// The instants that the calendar covers with a year to spare.
pub open spec fn stamp_ok(t: Stamp) -> bool {
    -8_000_000_000_000 <= t.secs <= 8_000_000_000_000 && offset_ok(t.offset as int)
}

/// The instants whose local date the calendar covers.
pub open spec fn in_reach(t: Stamp) -> bool {
    -8_100_000_000_000 <= t.secs <= 8_100_000_000_000 && offset_ok(t.offset as int)
}

/// Whether the local clock shows a whole minute.
pub open spec fn whole_minute(t: Stamp) -> bool {
    t.nanos == 0 && (t.secs + t.offset) % 60 == 0
}

/// The month and the day of the month, in the proleptic Gregorian calendar, of a
/// number of days since the epoch. Years are counted from the first of March, so
/// that a leap day is the last of its year, in cycles of 400 years.
pub open spec fn month_and_day(days: int) -> (int, int) {
    let of_cycle = (days + 719468) % 146097;
    let year = (of_cycle - of_cycle / 1460 + of_cycle / 36524 - of_cycle / 146096) / 365;
    let of_year = of_cycle - (365 * year + year / 4 - year / 100);
    let month = (5 * of_year + 2) / 153;
    let day = of_year - (153 * month + 2) / 5 + 1;
    (if month < 10 { month + 3 } else { month - 9 }, day)
}

/// What clock and calendar show, in universal time, at a number of seconds since the
/// epoch, which fell on a Thursday.
pub open spec fn civil_of(secs: int) -> Wall {
    let days = secs / 86400;
    Wall {
        minute: ((secs / 60) % 60) as u32,
        hour: ((secs / 3600) % 24) as u32,
        day: month_and_day(days).1 as u32,
        month: month_and_day(days).0 as u32,
        weekday: ((days + 4) % 7) as u32,
    }
}

/// Calls `chrono::DateTime::from_timestamp` and reads the fields of the date.
///
/// Every instant that the calendar covers has a date. The minute, the hour and the
/// day of the week are those of days of 86400 seconds counted from a Thursday. The
/// month and the day of the month are those of the proleptic Gregorian calendar.
#[verifier::external_body]
fn civil(secs: i64) -> (r: Wall)
    requires
        in_calendar(secs as int),
    ensures
        r == civil_of(secs as int),
{
    let t = chrono::DateTime::from_timestamp(secs, 0).unwrap();
    Wall {
        minute: t.minute(),
        hour: t.hour(),
        day: t.day(),
        month: t.month(),
        weekday: t.weekday().num_days_from_sunday(),
    }
}

/// Calls `timestamp_opt` of `chrono::Local`: how far the local time is ahead of
/// universal time at an instant.
///
/// The machine's time zone decides. Whatever it is, the offset is less than a day.
#[verifier::external_body]
pub(crate) fn local_offset(secs: i64) -> (r: i32)
    requires
        in_calendar(secs as int),
    ensures
        offset_ok(r as int),
{
    chrono::Local.timestamp_opt(secs, 0).unwrap().offset().local_minus_utc()
}

/// Calls `from_local_datetime` of `chrono::Local`: the offset in force when the
/// local clock shows `local`, if it shows that exactly once.
///
/// The machine's time zone decides, also whether there is an offset. One that
/// there is is less than a day.
#[verifier::external_body]
pub(crate) fn unique_offset(local: i64) -> (r: Option<i32>)
    requires
        in_calendar(local as int),
    ensures
        r matches Some(o) ==> offset_ok(o as int),
{
    let naive = chrono::DateTime::from_timestamp(local, 0)?.naive_utc();
    chrono::Local.from_local_datetime(&naive).single().map(|t| t.offset().local_minus_utc())
}

/// What the local clock shows at an instant.
pub fn wall(t: &Stamp) -> (r: Wall)
    requires
        in_reach(*t),
    ensures
        r == civil_of(t.secs + t.offset),
{
    civil(t.secs + t.offset as i64)
}

} // verus!
