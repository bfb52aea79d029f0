//! The clock and the calendar, as `chrono` has them.
//!
//! Everything that is believed of `chrono` stands here. A day is handed over
//! as its number in the proleptic Gregorian calendar, 1 January of the year 1
//! being day 1, an instant as seconds since the Unix epoch, and a time of day
//! as its hour and minute.

use vstd::prelude::*;
use chrono::Datelike;
use chrono::TimeZone;
use chrono::Timelike;

verus! {

/// The local clock, read once: the instant as seconds and nanoseconds since
/// the Unix epoch, and the local day, as its number in the proleptic
/// Gregorian calendar, with its year, its weekday counted from Monday, and
/// the hour and minute.
#[derive(Clone, Copy, Debug)]
pub struct Clock {
    pub timestamp: i64,
    pub nanos: u32,
    pub today: i32,
    pub year: i32,
    pub weekday: u32,
    pub hour: u32,
    pub minute: u32,
}

/// The first instant that the local time zone is asked about: the beginning
/// of the year 0.
pub const FIRST_INSTANT: i64 = -62_167_219_200;

/// The last instant that the local time zone is asked about: the end of the
/// year 9999.
pub const LAST_INSTANT: i64 = 253_402_300_799;

/// The number of the last day that the local time zone is asked about: the
/// last day of the year 9999.
pub const LAST_DAY: i32 = 3_652_059;

/// `chrono::Local::now`, taken apart. What comes back depends on the clock
/// and the time zone; only the ranges of the weekday, the hour and the
/// minute are claimed.
#[verifier::external_body]
pub(crate) fn read_clock() -> (c: Clock)
    ensures
        c.weekday < 7,
        c.hour < 24,
        c.minute < 60,
{
    let now = chrono::Local::now();
    Clock {
        timestamp: now.timestamp(),
        nanos: now.timestamp_subsec_nanos(),
        today: now.date_naive().num_days_from_ce(),
        year: now.year(),
        weekday: now.weekday().num_days_from_monday(),
        hour: now.hour(),
        minute: now.minute(),
    }
}

/// The text of a day as `chrono::NaiveDate` prints it with `%Y-%m-%d`,
/// where the number is a day of its calendar.
pub uninterp spec fn day_shown(day: int) -> Option<Seq<char>>;

/// `chrono::NaiveDate::from_num_days_from_ce_opt`, the date then printed as
/// year, month and day.
#[verifier::external_body]
pub(crate) fn day_text(day: i32) -> (r: Option<String>)
    ensures
        r.deep_view() == day_shown(day as int),
{
    match chrono::NaiveDate::from_num_days_from_ce_opt(day) {
        Some(date) => Some(date.format("%Y-%m-%d").to_string()),
        None => None,
    }
}

/// The text of a minute of a day as `chrono::NaiveDateTime` prints it with
/// `%Y-%m-%d %H:%M`, where the day is one of its calendar and the hour and
/// minute are in their ranges.
pub uninterp spec fn minute_shown(day: int, hour: int, minute: int) -> Option<Seq<char>>;

/// `chrono::NaiveDate::from_num_days_from_ce_opt` and
/// `chrono::NaiveDate::and_hms_opt`, the time then printed as year, month,
/// day, hour and minute.
#[verifier::external_body]
pub(crate) fn minute_text(day: i32, hour: u32, minute: u32) -> (r: Option<String>)
    ensures
        r.deep_view() == minute_shown(day as int, hour as int, minute as int),
{
    match chrono::NaiveDate::from_num_days_from_ce_opt(day) {
        Some(date) => match date.and_hms_opt(hour, minute, 0) {
            Some(time) => Some(time.format("%Y-%m-%d %H:%M").to_string()),
            None => None,
        },
        None => None,
    }
}

/// Whether a day, an hour and a minute are a time of the local clock that
/// can be written: the hour and the minute are in their ranges, and the day
/// is one of the calendar.
pub open spec fn local_time(t: (i32, u32, u32)) -> bool {
    t.1 < 24 && t.2 < 60 && day_shown(t.0 as int) is Some && minute_shown(
        t.0 as int,
        t.1 as int,
        t.2 as int,
    ) is Some
}

/// The number of the day that `chrono::NaiveDate::parse_from_str` reads from
/// a text with `%Y-%m-%d`.
pub uninterp spec fn day_read(s: Seq<char>) -> Option<i32>;

/// `chrono::NaiveDate::parse_from_str` with `%Y-%m-%d`; the date is handed
/// back as its day number.
#[verifier::external_body]
pub(crate) fn read_day(s: &str) -> (r: Option<i32>)
    ensures
        r == day_read(s@),
{
    match chrono::NaiveDate::parse_from_str(s, "%Y-%m-%d") {
        Ok(date) => Some(date.num_days_from_ce()),
        Err(_) => None,
    }
}

/// The hour and the minute that `chrono::NaiveTime::parse_from_str` reads
/// from a text with `%H:%M`.
pub uninterp spec fn time_read(s: Seq<char>) -> Option<(u32, u32)>;

/// `chrono::NaiveTime::parse_from_str` with `%H:%M`; the time is handed back
/// as its hour, below 24, and its minute, below 60.
#[verifier::external_body]
pub(crate) fn read_time(s: &str) -> (r: Option<(u32, u32)>)
    ensures
        r == time_read(s@),
        r matches Some(t) ==> t.0 < 24 && t.1 < 60,
{
    match chrono::NaiveTime::parse_from_str(s, "%H:%M") {
        Ok(time) => Some((time.hour(), time.minute())),
        Err(_) => None,
    }
}

/// The day, hour and minute that `chrono::NaiveDateTime::parse_from_str`
/// reads from a text with `%Y-%m-%d %H:%M`.
pub uninterp spec fn minute_read(s: Seq<char>) -> Option<(i32, u32, u32)>;

/// `chrono::NaiveDateTime::parse_from_str` with `%Y-%m-%d %H:%M`; the time
/// is handed back as its day number, its hour, below 24, and its minute,
/// below 60.
#[verifier::external_body]
pub(crate) fn read_minute(s: &str) -> (r: Option<(i32, u32, u32)>)
    ensures
        r == minute_read(s@),
        r matches Some(t) ==> t.1 < 24 && t.2 < 60,
{
    match chrono::NaiveDateTime::parse_from_str(s, "%Y-%m-%d %H:%M") {
        Ok(time) => Some((time.num_days_from_ce(), time.hour(), time.minute())),
        Err(_) => None,
    }
}

/// `chrono::Local::timestamp_opt`, the instant then taken apart into its
/// local day, hour and minute. For an instant in the years 0 to 9999, which
/// is asked for, `chrono` always gives a time. Which one depends on the time
/// zone, so of the time only this is claimed: the hour and the minute are in
/// their ranges, and the day is one of `chrono`'s calendar, so that it can
/// be written.
#[verifier::external_body]
pub(crate) fn local_parts(timestamp: i64) -> (r: Option<(i32, u32, u32)>)
    requires
        FIRST_INSTANT <= timestamp <= LAST_INSTANT,
    ensures
        r is Some,
        r matches Some(t) ==> local_time(t),
{
    match chrono::Local.timestamp_opt(timestamp, 0).single() {
        Some(time) => Some((time.date_naive().num_days_from_ce(), time.hour(), time.minute())),
        None => None,
    }
}

/// `chrono::Local::from_local_datetime`: the instant, as seconds since the
/// Unix epoch, at which the local clock shows the given minute, where there
/// is exactly one. What comes back depends on the time zone, so nothing is
/// claimed of it. The day has to lie in the years 1 to 9999.
#[verifier::external_body]
pub(crate) fn local_instant(day: i32, hour: u32, minute: u32) -> (r: Option<i64>)
    requires
        0 < day <= LAST_DAY,
{
    match chrono::NaiveDate::from_num_days_from_ce_opt(day) {
        Some(date) => match date.and_hms_opt(hour, minute, 0) {
            Some(time) => match chrono::Local.from_local_datetime(&time).single() {
                Some(found) => Some(found.timestamp()),
                None => None,
            },
            None => None,
        },
        None => None,
    }
}

/// The instant, as seconds since the Unix epoch, that
/// `chrono::DateTime::parse_from_rfc3339` reads from a text.
pub uninterp spec fn rfc3339_instant(s: Seq<char>) -> Option<i64>;

/// `chrono::DateTime::parse_from_rfc3339`; the instant is handed back as its
/// seconds since the Unix epoch, which `chrono::DateTime::timestamp` gives.
/// A text that the parser refuses gives nothing.
#[verifier::external_body]
pub(crate) fn read_rfc3339(s: &str) -> (r: Option<i64>)
    ensures
        r == rfc3339_instant(s@),
{
    match chrono::DateTime::parse_from_rfc3339(s) {
        Ok(instant) => Some(instant.timestamp()),
        Err(_) => None,
    }
}

/// Today's date by the clock as it is written: year, month and day, as
/// `chrono` prints the clock's day. A day that is none of its calendar has
/// no text.
pub open spec fn today_shown(clock: Clock) -> Seq<char> {
    match day_shown(clock.today as int) {
        Some(text) => text,
        None => Seq::empty(),
    }
}

/// Today's date by the clock, as year, month and day.
pub(crate) fn today_text(clock: &Clock) -> (s: String)
    ensures
        s@ == today_shown(*clock),
{
    match day_text(clock.today) {
        Some(text) => text,
        None => String::new(),
    }
}

/// Today's date, as year, month and day: the day of the local clock, read
/// now, as it is written. Which day that is depends on the clock and the
/// time zone.
pub(crate) fn local_today() -> (s: String)
    ensures
        exists|clock: Clock| s@ == #[trigger] today_shown(clock),
{
    let clock = read_clock();
    let s = today_text(&clock);
    assert(s@ == today_shown(clock));
    s
}

/// The seconds since the Unix epoch, now, by the local clock. Any number may
/// come back, so nothing is claimed of it.
pub(crate) fn local_timestamp() -> (t: i64) {
    read_clock().timestamp
}

} // verus!
