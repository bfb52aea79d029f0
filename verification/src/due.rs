//! Due dates as the user types them: `tomorrow`, `next friday 15:30`,
//! `in 2 hours`, `2031-03-04 10:00`.
//!
//! What was typed is first turned into a plan, which does not depend on the
//! clock but for the current year. The plan and the clock give the day, or
//! the day and the minute, that is meant. A due date in the past is refused.

use vstd::prelude::*;
use crate::clock::day_read;
use crate::clock::day_shown;
use crate::clock::day_text;
use crate::clock::local_instant;
use crate::clock::local_parts;
use crate::clock::local_time;
use crate::clock::minute_read;
use crate::clock::minute_shown;
use crate::clock::minute_text;
use crate::clock::read_clock;
use crate::clock::read_day;
use crate::clock::read_minute;
use crate::clock::read_time;
use crate::clock::time_read;
use crate::clock::Clock;
use crate::clock::FIRST_INSTANT;
use crate::clock::LAST_DAY;
use crate::clock::LAST_INSTANT;
use crate::text::number_read;
use crate::text::read_number;
use crate::text::decimal;
use crate::text::decimal_of;
use crate::text::chars_of;
use crate::text::ends_with;
use crate::text::has_suffix;
use crate::text::joined;
use crate::text::lowercase;
use crate::text::lowercase_of;
use crate::text::same;
use crate::text::split_words;
use crate::text::string_of;
use crate::text::text_outcome;
use crate::text::strip_ending;
use crate::text::trim;
use crate::text::trimmed;
use crate::text::without_ending;
use crate::text::words_of;

verus! {

/// The number of a weekday by its name or its short name, counted from
/// Monday.
pub open spec fn weekday_named(w: Seq<char>) -> Option<u32> {
    if w == "monday"@ || w == "mon"@ {
        Some(0u32)
    } else if w == "tuesday"@ || w == "tue"@ {
        Some(1u32)
    } else if w == "wednesday"@ || w == "wed"@ {
        Some(2u32)
    } else if w == "thursday"@ || w == "thu"@ {
        Some(3u32)
    } else if w == "friday"@ || w == "fri"@ {
        Some(4u32)
    } else if w == "saturday"@ || w == "sat"@ {
        Some(5u32)
    } else if w == "sunday"@ || w == "sun"@ {
        Some(6u32)
    } else {
        None
    }
}

/// The number of a weekday by its name or its short name.
pub fn parse_weekday_name(w: &str) -> (r: Option<u32>)
    ensures
        r == weekday_named(w@),
        r matches Some(d) ==> d < 7,
{
    if same(w, "monday") || same(w, "mon") {
        Some(0)
    } else if same(w, "tuesday") || same(w, "tue") {
        Some(1)
    } else if same(w, "wednesday") || same(w, "wed") {
        Some(2)
    } else if same(w, "thursday") || same(w, "thu") {
        Some(3)
    } else if same(w, "friday") || same(w, "fri") {
        Some(4)
    } else if same(w, "saturday") || same(w, "sat") {
        Some(5)
    } else if same(w, "sunday") || same(w, "sun") {
        Some(6)
    } else {
        None
    }
}

/// Whether a word names a weekday.
pub fn is_weekday(w: &str) -> (r: bool)
    ensures
        r == (weekday_named(w@) is Some),
{
    parse_weekday_name(w).is_some()
}

/// Which of the days with a given weekday is meant.
#[derive(Clone, Copy, Debug, PartialEq, Eq, Structural)]
pub enum WeekRule {
    /// The next day with that weekday after today.
    Coming,
    /// The day with that weekday in the week after this one.
    Next,
    /// The day with that weekday in this week, or today where it is over.
    This,
}

/// The number of days from a day with the weekday `from` to the day that is
/// meant by the weekday `target`, both counted from Monday.
pub open spec fn days_ahead(rule: WeekRule, from: int, target: int) -> int {
    let days = target - from;
    match rule {
        WeekRule::Coming => if days <= 0 {
            days + 7
        } else {
            days
        },
        WeekRule::Next => days + 7,
        WeekRule::This => if days < 0 {
            0
        } else {
            days
        },
    }
}

/// The number of days from a day with the weekday `from` to the day that is
/// meant by the weekday `target`.
pub fn days_until(rule: WeekRule, from: u32, target: u32) -> (days: i64)
    ensures
        days == days_ahead(rule, from as int, target as int),
        from < 7 && target < 7 ==> 0 <= days <= 13,
{
    let days: i64 = target as i64 - from as i64;
    match rule {
        WeekRule::Coming => if days <= 0 {
            days + 7
        } else {
            days
        },
        WeekRule::Next => days + 7,
        WeekRule::This => if days < 0 {
            0
        } else {
            days
        },
    }
}

/// The number of days to the next day with the weekday `target`, which is
/// never today.
pub fn days_until_weekday(from: u32, target: u32) -> (days: i64)
    requires
        from < 7,
        target < 7,
    ensures
        days == days_ahead(WeekRule::Coming, from as int, target as int),
        1 <= days <= 7,
        (from + days) % 7 == target,
{
    days_until(WeekRule::Coming, from, target)
}

/// The number of days to the day with the weekday `target` in the week after
/// this one.
pub fn days_until_next_weekday(from: u32, target: u32) -> (days: i64)
    requires
        from < 7,
        target < 7,
    ensures
        days == days_ahead(WeekRule::Next, from as int, target as int),
        1 <= days <= 13,
        (from + days) % 7 == target,
{
    days_until(WeekRule::Next, from, target)
}

/// The number of days to the day with the weekday `target` in this week:
/// none where that day is today or over.
pub fn days_until_this_week(from: u32, target: u32) -> (days: i64)
    requires
        from < 7,
        target < 7,
    ensures
        days == days_ahead(WeekRule::This, from as int, target as int),
        0 <= days <= 6,
        target >= from ==> from + days == target,
{
    days_until(WeekRule::This, from, target)
}

/// The seconds in a unit of time by its name. A month counts thirty days and
/// a year 365.
pub open spec fn unit_seconds(unit: Seq<char>) -> Option<i64> {
    if unit == "second"@ || unit == "seconds"@ || unit == "sec"@ || unit == "s"@ {
        Some(1i64)
    } else if unit == "minute"@ || unit == "minutes"@ || unit == "min"@ || unit == "m"@ {
        Some(60i64)
    } else if unit == "hour"@ || unit == "hours"@ || unit == "hr"@ || unit == "h"@ {
        Some(3_600i64)
    } else if unit == "day"@ || unit == "days"@ || unit == "d"@ {
        Some(86_400i64)
    } else if unit == "week"@ || unit == "weeks"@ || unit == "w"@ {
        Some(604_800i64)
    } else if unit == "month"@ || unit == "months"@ {
        Some(2_592_000i64)
    } else if unit == "year"@ || unit == "years"@ {
        Some(31_536_000i64)
    } else {
        None
    }
}

/// The seconds in a unit of time by its name.
pub fn seconds_in(unit: &str) -> (r: Option<i64>)
    ensures
        r == unit_seconds(unit@),
        r matches Some(k) ==> 1 <= k <= 31_536_000,
{
    if same(unit, "second") || same(unit, "seconds") || same(unit, "sec") || same(unit, "s") {
        Some(1)
    } else if same(unit, "minute") || same(unit, "minutes") || same(unit, "min") || same(
        unit,
        "m",
    ) {
        Some(60)
    } else if same(unit, "hour") || same(unit, "hours") || same(unit, "hr") || same(unit, "h") {
        Some(3_600)
    } else if same(unit, "day") || same(unit, "days") || same(unit, "d") {
        Some(86_400)
    } else if same(unit, "week") || same(unit, "weeks") || same(unit, "w") {
        Some(604_800)
    } else if same(unit, "month") || same(unit, "months") {
        Some(2_592_000)
    } else if same(unit, "year") || same(unit, "years") {
        Some(31_536_000)
    } else {
        None
    }
}

/// The longest stretch of time that can be asked for, in seconds: that from
/// the beginning of the year 0 to the end of the year 9999.
pub const LONGEST: i64 = 315_569_519_999;

/// What the user is told of a stretch of time that reaches too far.
pub open spec fn too_long() -> Seq<char> {
    "Duration is too large"@
}

/// The model of a number of seconds, or the message that refuses it.
pub open spec fn seconds_outcome(r: Result<i64, String>) -> Result<int, Seq<char>> {
    match r {
        Ok(n) => Ok(n as int),
        Err(e) => Err(e@),
    }
}

/// The seconds in a stretch of time given as a number and a unit. The number
/// has to be a whole number that is not negative, and the unit a known one.
pub open spec fn duration_of(num: Seq<char>, unit: Seq<char>) -> Result<int, Seq<char>> {
    match number_read(num) {
        None => Err("Invalid number"@),
        Some(n) => if n < 0 {
            Err("Duration cannot be negative"@)
        } else {
            match unit_seconds(unit) {
                None => Err("Unsupported time unit '"@ + unit + "'"@),
                Some(k) => if n * k > LONGEST {
                    Err(too_long())
                } else {
                    Ok(n * k)
                },
            }
        },
    }
}

/// The seconds in a stretch of time given as a number and a unit.
pub fn parse_duration_component(num: &str, unit: &str) -> (r: Result<i64, String>)
    ensures
        seconds_outcome(r) == duration_of(num@, unit@),
        r matches Ok(n) ==> 0 <= n <= LONGEST,
{
    let n = match read_number(num) {
        Some(n) => n,
        None => {
            return Err("Invalid number".to_owned());
        },
    };
    if n < 0 {
        return Err("Duration cannot be negative".to_owned());
    }
    let k = match seconds_in(unit) {
        Some(k) => k,
        None => {
            return Err(joined(joined("Unsupported time unit '", unit).as_str(), "'"));
        },
    };
    if n > LONGEST / k {
        assert(n * k > LONGEST) by (nonlinear_arith)
            requires
                n > LONGEST / k,
                k >= 1,
        ;
        return Err("Duration is too large".to_owned());
    }
    assert(n * k <= LONGEST) by (nonlinear_arith)
        requires
            0 <= n <= LONGEST / k,
            k >= 1,
    ;
    assert(0 <= n * k) by (nonlinear_arith)
        requires
            0 <= n,
            k >= 1,
    ;
    Ok(n * k)
}

/// The sum of two stretches of time. The first that is refused decides.
pub open spec fn durations_of(
    n1: Seq<char>,
    u1: Seq<char>,
    n2: Seq<char>,
    u2: Seq<char>,
) -> Result<int, Seq<char>> {
    match duration_of(n1, u1) {
        Err(e) => Err(e),
        Ok(a) => match duration_of(n2, u2) {
            Err(e) => Err(e),
            Ok(b) => if a + b > LONGEST {
                Err(too_long())
            } else {
                Ok(a + b)
            },
        },
    }
}

/// The sum of two stretches of time.
pub fn parse_compound_offset(n1: &str, u1: &str, n2: &str, u2: &str) -> (r: Result<i64, String>)
    ensures
        seconds_outcome(r) == durations_of(n1@, u1@, n2@, u2@),
        r matches Ok(n) ==> 0 <= n <= LONGEST,
{
    let a = match parse_duration_component(n1, u1) {
        Ok(a) => a,
        Err(e) => {
            return Err(e);
        },
    };
    let b = match parse_duration_component(n2, u2) {
        Ok(b) => b,
        Err(e) => {
            return Err(e);
        },
    };
    if a + b > LONGEST {
        Err("Duration is too large".to_owned())
    } else {
        Ok(a + b)
    }
}

/// What a due date means before the clock is looked at.
#[derive(Clone, Copy, Debug, PartialEq, Eq, Structural)]
pub enum DuePlan {
    /// This minute.
    Now,
    /// The day so many days from today.
    InDays { days: i64 },
    /// A day by its weekday.
    Weekday { target: u32, rule: WeekRule },
    /// A minute of a day by its weekday.
    WeekdayAt { target: u32, rule: WeekRule, hour: u32, minute: u32 },
    /// The minute so many seconds from now.
    After { seconds: i64 },
    /// A minute of a day by its number.
    At { day: i32, hour: u32, minute: u32 },
    /// A day by its number.
    On { day: i32 },
    /// A minute of today.
    TodayAt { hour: u32, minute: u32 },
}

/// The model of a plan, or the message that refuses what was typed.
pub open spec fn plan_outcome(r: Result<DuePlan, String>) -> Result<DuePlan, Seq<char>> {
    match r {
        Ok(p) => Ok(p),
        Err(e) => Err(e@),
    }
}

/// What the user is told of a time that is not an hour and a minute.
pub open spec fn bad_time() -> Seq<char> {
    "Invalid time format. Use HH:MM"@
}

/// What the user is told of words that make no due date.
pub open spec fn unrecognized() -> Seq<char> {
    "Unrecognized due date format"@
}

/// The hour of the day for an hour of the twelve-hour clock: in the
/// afternoon twelve hours are added to the hours before twelve, and in the
/// morning twelve is midnight.
pub open spec fn hour_of_day(hour: u32, afternoon: bool) -> u32 {
    if afternoon && hour < 12 {
        (hour + 12) as u32
    } else if !afternoon && hour == 12 {
        0
    } else {
        hour
    }
}

/// The plan for a single word that is no keyword: a full date; else a month
/// and day of the current year; else an hour and minute of today; else an
/// hour and minute that `am` or `pm` follows.
pub open spec fn date_or_time(w: Seq<char>, year: int) -> Result<DuePlan, Seq<char>> {
    if let Some(day) = day_read(w) {
        Ok(DuePlan::On { day })
    } else if let Some(day) = day_read(decimal(year) + "-"@ + w) {
        Ok(DuePlan::On { day })
    } else if let Some(t) = time_read(w) {
        Ok(DuePlan::TodayAt { hour: t.0, minute: t.1 })
    } else if ends_with(w, "am"@) || ends_with(w, "pm"@) {
        match time_read(trimmed(without_ending(without_ending(w, "am"@), "pm"@))) {
            Some(t) => Ok(
                DuePlan::TodayAt { hour: hour_of_day(t.0, ends_with(w, "pm"@)), minute: t.1 },
            ),
            None => Err("Invalid date or time format"@),
        }
    } else {
        Err("Invalid date or time format"@)
    }
}

/// The plan for a weekday and a time.
pub open spec fn weekday_at(target: u32, rule: WeekRule, time: Seq<char>) -> Result<
    DuePlan,
    Seq<char>,
> {
    match time_read(time) {
        Some(t) => Ok(DuePlan::WeekdayAt { target, rule, hour: t.0, minute: t.1 }),
        None => Err(bad_time()),
    }
}

/// The plan for a stretch of time from now.
pub open spec fn after(duration: Result<int, Seq<char>>) -> Result<DuePlan, Seq<char>> {
    match duration {
        Ok(seconds) => Ok(DuePlan::After { seconds: seconds as i64 }),
        Err(e) => Err(e),
    }
}

/// The plan for one word.
pub open spec fn plan_one(w: Seq<char>, year: int) -> Result<DuePlan, Seq<char>> {
    if w == "now"@ {
        Ok(DuePlan::Now)
    } else if w == "today"@ {
        Ok(DuePlan::InDays { days: 0 })
    } else if w == "tomorrow"@ || w == "tmr"@ {
        Ok(DuePlan::InDays { days: 1 })
    } else if w == "yesterday"@ {
        Ok(DuePlan::InDays { days: -1i64 })
    } else if let Some(target) = weekday_named(w) {
        Ok(DuePlan::Weekday { target, rule: WeekRule::Coming })
    } else if w == "week"@ {
        Ok(DuePlan::InDays { days: 7 })
    } else if w == "month"@ {
        Ok(DuePlan::InDays { days: 30 })
    } else if w == "year"@ {
        Ok(DuePlan::InDays { days: 365 })
    } else {
        date_or_time(w, year)
    }
}

/// The plan for two words: `next` or `this` and a weekday; `next` and a
/// period; a date and a time; a weekday and a time; or a number and a unit.
pub open spec fn plan_two(a: Seq<char>, b: Seq<char>) -> Result<DuePlan, Seq<char>> {
    if a == "next"@ && weekday_named(b) is Some {
        Ok(DuePlan::Weekday { target: weekday_named(b)->0, rule: WeekRule::Next })
    } else if a == "this"@ && weekday_named(b) is Some {
        Ok(DuePlan::Weekday { target: weekday_named(b)->0, rule: WeekRule::This })
    } else if a == "next"@ && b == "week"@ {
        Ok(DuePlan::InDays { days: 7 })
    } else if a == "next"@ && b == "month"@ {
        Ok(DuePlan::InDays { days: 30 })
    } else if a == "next"@ && b == "year"@ {
        Ok(DuePlan::InDays { days: 365 })
    } else if let (Some(day), Some(t)) = (day_read(a), time_read(b)) {
        Ok(DuePlan::At { day, hour: t.0, minute: t.1 })
    } else if let Some(target) = weekday_named(a) {
        weekday_at(target, WeekRule::Coming, b)
    } else {
        after(duration_of(a, b))
    }
}

/// The plan for three words: `in`, a number and a unit; or `next` or `this`,
/// a weekday and a time.
pub open spec fn plan_three(a: Seq<char>, b: Seq<char>, c: Seq<char>) -> Result<
    DuePlan,
    Seq<char>,
> {
    if a == "in"@ {
        after(duration_of(b, c))
    } else if a == "next"@ && weekday_named(b) is Some {
        weekday_at(weekday_named(b)->0, WeekRule::Next, c)
    } else if a == "this"@ && weekday_named(b) is Some {
        weekday_at(weekday_named(b)->0, WeekRule::This, c)
    } else {
        Err(unrecognized())
    }
}

/// The plan for the words of a due date.
pub open spec fn plan_words(words: Seq<Seq<char>>, year: int) -> Result<DuePlan, Seq<char>> {
    if words.len() == 1 {
        plan_one(words[0], year)
    } else if words.len() == 2 {
        plan_two(words[0], words[1])
    } else if words.len() == 3 {
        plan_three(words[0], words[1], words[2])
    } else if words.len() == 4 {
        after(durations_of(words[0], words[1], words[2], words[3]))
    } else if words.len() == 5 && words[0] == "in"@ {
        after(durations_of(words[1], words[2], words[3], words[4]))
    } else {
        Err(unrecognized())
    }
}

/// The plan for a due date as it was typed. Case and the white space around
/// the words do not count. Nothing typed is refused.
pub open spec fn planned(input: Seq<char>, year: int) -> Result<DuePlan, Seq<char>> {
    let text = lowercase_of(trimmed(input));
    if text.len() == 0 {
        Err("Please enter a due date"@)
    } else {
        plan_words(words_of(text), year)
    }
}

/// The plan for a stretch of time from now.
fn plan_after(duration: Result<i64, String>) -> (r: Result<DuePlan, String>)
    ensures
        plan_outcome(r) == after(seconds_outcome(duration)),
{
    match duration {
        Ok(seconds) => Ok(DuePlan::After { seconds }),
        Err(e) => Err(e),
    }
}

/// The plan for a weekday and a time.
fn plan_weekday_at(target: u32, rule: WeekRule, time: &str) -> (r: Result<DuePlan, String>)
    ensures
        plan_outcome(r) == weekday_at(target, rule, time@),
{
    match read_time(time) {
        Some(t) => Ok(DuePlan::WeekdayAt { target, rule, hour: t.0, minute: t.1 }),
        None => Err("Invalid time format. Use HH:MM".to_owned()),
    }
}

/// The plan for a single word that is no keyword.
pub fn try_parse_date_or_time(w: &str, year: i32) -> (r: Result<DuePlan, String>)
    ensures
        plan_outcome(r) == date_or_time(w@, year as int),
{
    match read_day(w) {
        Some(day) => {
            return Ok(DuePlan::On { day });
        },
        None => {},
    }
    match read_day(joined(joined(decimal_of(year).as_str(), "-").as_str(), w).as_str()) {
        Some(day) => {
            return Ok(DuePlan::On { day });
        },
        None => {},
    }
    match read_time(w) {
        Some(t) => {
            return Ok(DuePlan::TodayAt { hour: t.0, minute: t.1 });
        },
        None => {},
    }
    let chars = chars_of(w);
    let am = chars_of("am");
    let pm = chars_of("pm");
    assert(chars@.take(chars.len() as int) =~= chars@);
    let afternoon = has_suffix(&chars, &pm, chars.len());
    if has_suffix(&chars, &am, chars.len()) || afternoon {
        let n = strip_ending(&chars, &am, chars.len());
        let m = strip_ending(&chars, &pm, n);
        let part = string_of(&chars, 0, m);
        assert(chars@.subrange(0, m as int) =~= chars@.take(m as int));
        assert(chars@.take(n as int).take(m as int) =~= chars@.take(m as int));
        match read_time(trim(part.as_str()).as_str()) {
            Some(t) => {
                let hour = if afternoon && t.0 < 12 {
                    t.0 + 12
                } else if !afternoon && t.0 == 12 {
                    0
                } else {
                    t.0
                };
                Ok(DuePlan::TodayAt { hour, minute: t.1 })
            },
            None => Err("Invalid date or time format".to_owned()),
        }
    } else {
        Err("Invalid date or time format".to_owned())
    }
}

/// The plan for one word.
fn plan_for_one(w: &str, year: i32) -> (r: Result<DuePlan, String>)
    ensures
        plan_outcome(r) == plan_one(w@, year as int),
{
    if same(w, "now") {
        Ok(DuePlan::Now)
    } else if same(w, "today") {
        Ok(DuePlan::InDays { days: 0 })
    } else if same(w, "tomorrow") || same(w, "tmr") {
        Ok(DuePlan::InDays { days: 1 })
    } else if same(w, "yesterday") {
        Ok(DuePlan::InDays { days: -1 })
    } else {
        match parse_weekday_name(w) {
            Some(target) => Ok(DuePlan::Weekday { target, rule: WeekRule::Coming }),
            None => {
                if same(w, "week") {
                    Ok(DuePlan::InDays { days: 7 })
                } else if same(w, "month") {
                    Ok(DuePlan::InDays { days: 30 })
                } else if same(w, "year") {
                    Ok(DuePlan::InDays { days: 365 })
                } else {
                    try_parse_date_or_time(w, year)
                }
            },
        }
    }
}

/// The plan for two words.
fn plan_for_two(a: &str, b: &str) -> (r: Result<DuePlan, String>)
    ensures
        plan_outcome(r) == plan_two(a@, b@),
{
    let next = same(a, "next");
    let this = same(a, "this");
    if next || this {
        match parse_weekday_name(b) {
            Some(target) => {
                return Ok(
                    DuePlan::Weekday {
                        target,
                        rule: if next {
                            WeekRule::Next
                        } else {
                            WeekRule::This
                        },
                    },
                );
            },
            None => {},
        }
    }
    if next && same(b, "week") {
        return Ok(DuePlan::InDays { days: 7 });
    }
    if next && same(b, "month") {
        return Ok(DuePlan::InDays { days: 30 });
    }
    if next && same(b, "year") {
        return Ok(DuePlan::InDays { days: 365 });
    }
    match (read_day(a), read_time(b)) {
        (Some(day), Some(t)) => {
            return Ok(DuePlan::At { day, hour: t.0, minute: t.1 });
        },
        _ => {},
    }
    match parse_weekday_name(a) {
        Some(target) => plan_weekday_at(target, WeekRule::Coming, b),
        None => plan_after(parse_duration_component(a, b)),
    }
}

/// The plan for three words.
fn plan_for_three(a: &str, b: &str, c: &str) -> (r: Result<DuePlan, String>)
    ensures
        plan_outcome(r) == plan_three(a@, b@, c@),
{
    if same(a, "in") {
        return plan_after(parse_duration_component(b, c));
    }
    let next = same(a, "next");
    let this = same(a, "this");
    if next || this {
        match parse_weekday_name(b) {
            Some(target) => {
                return plan_weekday_at(
                    target,
                    if next {
                        WeekRule::Next
                    } else {
                        WeekRule::This
                    },
                    c,
                );
            },
            None => {},
        }
    }
    Err("Unrecognized due date format".to_owned())
}

/// The plan for a due date as it was typed in the given year.
pub fn due_plan(input: &str, year: i32) -> (r: Result<DuePlan, String>)
    ensures
        plan_outcome(r) == planned(input@, year as int),
{
    let text = lowercase(trim(input).as_str());
    if text.as_str().is_empty() {
        return Err("Please enter a due date".to_owned());
    }
    let words = split_words(text.as_str());
    let ghost w = words.deep_view();
    assert(forall|i: int| 0 <= i < words.len() ==> w[i] == (#[trigger] words[i])@);
    let n = words.len();
    if n == 1 {
        plan_for_one(words[0].as_str(), year)
    } else if n == 2 {
        plan_for_two(words[0].as_str(), words[1].as_str())
    } else if n == 3 {
        plan_for_three(words[0].as_str(), words[1].as_str(), words[2].as_str())
    } else if n == 4 {
        plan_after(
            parse_compound_offset(
                words[0].as_str(),
                words[1].as_str(),
                words[2].as_str(),
                words[3].as_str(),
            ),
        )
    } else if n == 5 && same(words[0].as_str(), "in") {
        plan_after(
            parse_compound_offset(
                words[1].as_str(),
                words[2].as_str(),
                words[3].as_str(),
                words[4].as_str(),
            ),
        )
    } else {
        Err("Unrecognized due date format".to_owned())
    }
}

/// The day, or the minute of a day, that a due date means.
#[derive(Clone, Copy, Debug, PartialEq, Eq, Structural)]
pub enum Candidate {
    Day { day: i32 },
    Minute { day: i32, hour: u32, minute: u32 },
}

/// The model of a candidate, or the message that refuses the due date.
pub open spec fn candidate_outcome(r: Result<Candidate, String>) -> Result<Candidate, Seq<char>> {
    match r {
        Ok(c) => Ok(c),
        Err(e) => Err(e@),
    }
}

/// What the user is told of a due date that is no day of the calendar.
pub open spec fn no_such_day() -> Seq<char> {
    "Failed to parse due date"@
}

/// The day so many days from today, where its number can be held.
pub open spec fn day_from(today: int, days: int) -> Option<i32> {
    if i32::MIN <= today + days <= i32::MAX {
        Some((today + days) as i32)
    } else {
        None
    }
}

/// The instant whose local day, hour and minute a plan needs: for a stretch
/// of time from now, the instant at its end, where that lies in the years 0
/// to 9999.
pub open spec fn instant_wanted(plan: DuePlan, clock: Clock) -> Option<i64> {
    match plan {
        DuePlan::After { seconds } => if FIRST_INSTANT <= clock.timestamp + seconds
            <= LAST_INSTANT {
            Some((clock.timestamp + seconds) as i64)
        } else {
            None
        },
        _ => None,
    }
}

/// The day, or the minute of a day, that a plan means by the given clock.
/// `parts` are the local day, hour and minute of the instant that the plan
/// needs, where it needs one and the time zone knows them.
pub open spec fn meant(plan: DuePlan, clock: Clock, parts: Option<(i32, u32, u32)>) -> Result<
    Candidate,
    Seq<char>,
> {
    match plan {
        DuePlan::Now => Ok(
            Candidate::Minute { day: clock.today, hour: clock.hour, minute: clock.minute },
        ),
        DuePlan::InDays { days } => match day_from(clock.today as int, days as int) {
            Some(day) => Ok(Candidate::Day { day }),
            None => Err(no_such_day()),
        },
        DuePlan::Weekday { target, rule } => match day_from(
            clock.today as int,
            days_ahead(rule, clock.weekday as int, target as int),
        ) {
            Some(day) => Ok(Candidate::Day { day }),
            None => Err(no_such_day()),
        },
        DuePlan::WeekdayAt { target, rule, hour, minute } => match day_from(
            clock.today as int,
            days_ahead(rule, clock.weekday as int, target as int),
        ) {
            Some(day) => Ok(Candidate::Minute { day, hour, minute }),
            None => Err(no_such_day()),
        },
        DuePlan::After { .. } => match parts {
            Some(p) => Ok(Candidate::Minute { day: p.0, hour: p.1, minute: p.2 }),
            None => Err(too_long()),
        },
        DuePlan::At { day, hour, minute } => Ok(Candidate::Minute { day, hour, minute }),
        DuePlan::On { day } => Ok(Candidate::Day { day }),
        DuePlan::TodayAt { hour, minute } => Ok(
            Candidate::Minute { day: clock.today, hour, minute },
        ),
    }
}

/// The day so many days from today, where its number can be held.
fn day_after(today: i32, days: i64) -> (r: Option<i32>)
    ensures
        r == day_from(today as int, days as int),
{
    if days < -0x1_0000_0000 || days > 0x1_0000_0000 {
        return None;
    }
    let sum: i64 = today as i64 + days;
    if sum < -0x8000_0000 || sum > 0x7fff_ffff {
        None
    } else {
        Some(sum as i32)
    }
}

/// The instant whose local day, hour and minute a plan needs.
pub fn instant_for(plan: &DuePlan, clock: &Clock) -> (r: Option<i64>)
    ensures
        r == instant_wanted(*plan, *clock),
        r matches Some(t) ==> FIRST_INSTANT <= t <= LAST_INSTANT,
{
    match plan {
        DuePlan::After { seconds } => {
            match clock.timestamp.checked_add(*seconds) {
                Some(t) => if FIRST_INSTANT <= t && t <= LAST_INSTANT {
                    Some(t)
                } else {
                    None
                },
                None => None,
            }
        },
        _ => None,
    }
}

/// The day, or the minute of a day, that a plan means by the given clock.
pub fn meant_by(plan: &DuePlan, clock: &Clock, parts: Option<(i32, u32, u32)>) -> (r: Result<
    Candidate,
    String,
>)
    ensures
        candidate_outcome(r) == meant(*plan, *clock, parts),
{
    match plan {
        DuePlan::Now => Ok(
            Candidate::Minute { day: clock.today, hour: clock.hour, minute: clock.minute },
        ),
        DuePlan::InDays { days } => match day_after(clock.today, *days) {
            Some(day) => Ok(Candidate::Day { day }),
            None => Err("Failed to parse due date".to_owned()),
        },
        DuePlan::Weekday { target, rule } => match day_after(
            clock.today,
            days_until(*rule, clock.weekday, *target),
        ) {
            Some(day) => Ok(Candidate::Day { day }),
            None => Err("Failed to parse due date".to_owned()),
        },
        DuePlan::WeekdayAt { target, rule, hour, minute } => match day_after(
            clock.today,
            days_until(*rule, clock.weekday, *target),
        ) {
            Some(day) => Ok(Candidate::Minute { day, hour: *hour, minute: *minute }),
            None => Err("Failed to parse due date".to_owned()),
        },
        DuePlan::After { .. } => match parts {
            Some(p) => Ok(Candidate::Minute { day: p.0, hour: p.1, minute: p.2 }),
            None => Err("Duration is too large".to_owned()),
        },
        DuePlan::At { day, hour, minute } => Ok(
            Candidate::Minute { day: *day, hour: *hour, minute: *minute },
        ),
        DuePlan::On { day } => Ok(Candidate::Day { day: *day }),
        DuePlan::TodayAt { hour, minute } => Ok(
            Candidate::Minute { day: clock.today, hour: *hour, minute: *minute },
        ),
    }
}

/// Whether an instant, given in whole seconds, lies before the instant that
/// the clock was read at.
pub open spec fn before_now(instant: i64, clock: Clock) -> bool {
    instant < clock.timestamp || (instant == clock.timestamp && clock.nanos > 0)
}

/// The minute whose instant the time zone is asked for: that of a candidate
/// with a minute, where its day lies in the years 1 to 9999.
pub open spec fn minute_wanted(c: Candidate) -> Option<(i32, u32, u32)> {
    match c {
        Candidate::Minute { day, hour, minute } => if 0 < day <= LAST_DAY {
            Some((day, hour, minute))
        } else {
            None
        },
        Candidate::Day { .. } => None,
    }
}

/// What the user is told of a due date that is over.
pub open spec fn in_the_past() -> Seq<char> {
    "Due date cannot be in the past"@
}

/// The due date as it is kept, or why it is refused. A day is kept as year,
/// month and day, and refused where it lies before today. A minute is kept
/// as year, month, day, hour and minute; it is refused where the local time
/// zone has no single instant for it, `instant` being that instant, or where
/// the instant lies before now.
pub open spec fn validated(c: Candidate, clock: Clock, instant: Option<i64>) -> Result<
    Seq<char>,
    Seq<char>,
> {
    match c {
        Candidate::Day { day } => match day_shown(day as int) {
            None => Err(no_such_day()),
            Some(text) => if day < clock.today {
                Err(in_the_past())
            } else {
                Ok(text)
            },
        },
        Candidate::Minute { day, hour, minute } => match minute_shown(
            day as int,
            hour as int,
            minute as int,
        ) {
            None => Err(no_such_day()),
            Some(text) => match instant {
                None => Err("Failed to convert due date to local time"@),
                Some(t) => if before_now(t, clock) {
                    Err(in_the_past())
                } else {
                    Ok(text)
                },
            },
        },
    }
}

/// The minute whose instant the time zone is asked for.
pub fn minute_for(c: &Candidate) -> (r: Option<(i32, u32, u32)>)
    ensures
        r == minute_wanted(*c),
{
    match c {
        Candidate::Minute { day, hour, minute } => if 0 < *day && *day <= LAST_DAY {
            Some((*day, *hour, *minute))
        } else {
            None
        },
        Candidate::Day { .. } => None,
    }
}

/// Whether an instant lies before the instant that the clock was read at.
fn is_before_now(instant: i64, clock: &Clock) -> (r: bool)
    ensures
        r == before_now(instant, *clock),
{
    instant < clock.timestamp || (instant == clock.timestamp && clock.nanos > 0)
}

/// The due date as it is kept, or why it is refused.
pub fn validate_not_past(c: &Candidate, clock: &Clock, instant: Option<i64>) -> (r: Result<
    String,
    String,
>)
    ensures
        text_outcome(r) == validated(*c, *clock, instant),
{
    match c {
        Candidate::Day { day } => match day_text(*day) {
            None => Err("Failed to parse due date".to_owned()),
            Some(text) => if *day < clock.today {
                Err("Due date cannot be in the past".to_owned())
            } else {
                Ok(text)
            },
        },
        Candidate::Minute { day, hour, minute } => match minute_text(*day, *hour, *minute) {
            None => Err("Failed to parse due date".to_owned()),
            Some(text) => match instant {
                None => Err("Failed to convert due date to local time".to_owned()),
                Some(t) => if is_before_now(t, clock) {
                    Err("Due date cannot be in the past".to_owned())
                } else {
                    Ok(text)
                },
            },
        },
    }
}

/// The due date that was typed as it is kept, or why it is refused, by the
/// given clock and what the time zone says: `parts` for the instant that the
/// plan needs, and `instant` for the minute that is meant.
pub open spec fn due_date(
    input: Seq<char>,
    clock: Clock,
    parts: Option<(i32, u32, u32)>,
    instant: Option<i64>,
) -> Result<Seq<char>, Seq<char>> {
    match planned(input, clock.year as int) {
        Err(e) => Err(e),
        Ok(plan) => match meant(plan, clock, parts) {
            Err(e) => Err(e),
            Ok(c) => validated(c, clock, instant),
        },
    }
}

/// Whether `parts` can be what the time zone says of the instant that a due
/// date needs: where the due date is a stretch of time from now that ends in
/// the years 0 to 9999, a local time that can be written; else nothing.
pub open spec fn zoned(input: Seq<char>, clock: Clock, parts: Option<(i32, u32, u32)>) -> bool {
    let needed = match planned(input, clock.year as int) {
        Ok(plan) => instant_wanted(plan, clock) is Some,
        Err(_) => false,
    };
    match parts {
        Some(t) => needed && local_time(t),
        None => !needed,
    }
}

/// Reads a due date as the user typed it, now, in the local time zone.
pub fn parse_due_date(input: &str) -> (r: Result<String, String>)
    ensures
        exists|clock: Clock, parts: Option<(i32, u32, u32)>, instant: Option<i64>|
            zoned(input@, clock, parts) && text_outcome(r) == #[trigger] due_date(
                input@,
                clock,
                parts,
                instant,
            ),
{
    let clock = read_clock();
    let ghost none_parts: Option<(i32, u32, u32)> = None;
    let ghost none_instant: Option<i64> = None;
    let plan = match due_plan(input, clock.year) {
        Ok(plan) => plan,
        Err(e) => {
            assert(zoned(input@, clock, none_parts) && Err::<Seq<char>, Seq<char>>(e@) == due_date(
                input@,
                clock,
                none_parts,
                none_instant,
            ));
            return Err(e);
        },
    };
    let parts = match instant_for(&plan, &clock) {
        Some(t) => local_parts(t),
        None => None,
    };
    assert(zoned(input@, clock, parts));
    let c = match meant_by(&plan, &clock, parts) {
        Ok(c) => c,
        Err(e) => {
            assert(Err::<Seq<char>, Seq<char>>(e@) == due_date(input@, clock, parts, none_instant));
            return Err(e);
        },
    };
    let instant = match minute_for(&c) {
        Some(m) => local_instant(m.0, m.1, m.2),
        None => None,
    };
    let r = validate_not_past(&c, &clock, instant);
    assert(text_outcome(r) == due_date(input@, clock, parts, instant));
    r
}

/// Whether a due date as it is kept is over. `instant` is the instant of its
/// minute in the local time zone, where it has a minute and the time zone a
/// single instant for it.
pub open spec fn overdue(due: Seq<char>, clock: Clock, instant: Option<i64>) -> bool {
    if due == "No due date"@ {
        false
    } else if minute_read(due) is Some && instant is Some {
        before_now(instant->0, clock)
    } else {
        match day_read(due) {
            Some(day) => day < clock.today,
            None => false,
        }
    }
}

/// The minute of a due date as it is kept, where it has one in the years 1
/// to 9999.
pub open spec fn minute_kept(due: Seq<char>) -> Option<(i32, u32, u32)> {
    match minute_read(due) {
        Some(m) => if 0 < m.0 <= LAST_DAY {
            Some(m)
        } else {
            None
        },
        None => None,
    }
}

/// Whether a due date as it is kept is over by the given clock.
pub fn is_overdue_at(due: &str, clock: &Clock, instant: Option<i64>) -> (r: bool)
    ensures
        r == overdue(due@, *clock, instant),
{
    if same(due, "No due date") {
        return false;
    }
    match (read_minute(due), instant) {
        (Some(_), Some(t)) => is_before_now(t, clock),
        _ => match read_day(due) {
            Some(day) => day < clock.today,
            None => false,
        },
    }
}

/// Whether a due date as it is kept is over, now, in the local time zone.
pub fn is_overdue(due: &str) -> (r: bool)
    ensures
        exists|clock: Clock, instant: Option<i64>|
            r == #[trigger] overdue(due@, clock, instant) && (instant is Some ==> minute_kept(due@)
                is Some),
{
    let clock = read_clock();
    let instant = match read_minute(due) {
        Some(m) => if 0 < m.0 && m.0 <= LAST_DAY {
            local_instant(m.0, m.1, m.2)
        } else {
            None
        },
        None => None,
    };
    let r = is_overdue_at(due, &clock, instant);
    assert(r == overdue(due@, clock, instant) && (instant is Some ==> minute_kept(due@) is Some));
    r
}

} // verus!
