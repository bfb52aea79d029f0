use planky::due::{
    days_until, days_until_next_weekday, days_until_this_week, days_until_weekday, due_plan, instant_for, is_overdue,
    is_overdue_at, is_weekday, meant_by, minute_for, parse_compound_offset, parse_due_date, parse_duration_component,
    parse_weekday_name, seconds_in, try_parse_date_or_time, validate_not_past, Candidate, DuePlan, WeekRule,
};
use planky::clock::Clock;
use planky::text::split_words;

/// Wednesday, 5 March 2031, 10:30 local time.
fn clock() -> Clock {
    Clock { timestamp: 1_930_000_000, nanos: 5, today: 741_506, year: 2031, weekday: 2, hour: 10, minute: 30 }
}

fn plan(input: &str) -> Result<DuePlan, String> {
    due_plan(input, 2031)
}

#[test]
fn weekdays_are_known_by_name() {
    let names = [("monday", "mon"), ("tuesday", "tue"), ("wednesday", "wed"), ("thursday", "thu"), ("friday", "fri"), ("saturday", "sat"), ("sunday", "sun")];
    for (i, (long, short)) in names.iter().enumerate() {
        assert_eq!(parse_weekday_name(long), Some(i as u32));
        assert_eq!(parse_weekday_name(short), Some(i as u32));
        assert!(is_weekday(long) && is_weekday(short));
    }
    for other in ["", "Monday", "mo", "mond", "week", "sunn"] {
        assert_eq!(parse_weekday_name(other), None);
        assert!(!is_weekday(other));
    }
}

#[test]
fn days_to_a_weekday() {
    assert_eq!(days_until_weekday(2, 4), 2);
    assert_eq!(days_until_weekday(2, 2), 7);
    assert_eq!(days_until_weekday(2, 0), 5);
    assert_eq!(days_until_weekday(6, 0), 1);
    assert_eq!(days_until_weekday(0, 6), 6);
    assert_eq!(days_until_next_weekday(2, 4), 9);
    assert_eq!(days_until_next_weekday(2, 2), 7);
    assert_eq!(days_until_next_weekday(2, 0), 5);
    assert_eq!(days_until_next_weekday(0, 6), 13);
    assert_eq!(days_until_this_week(2, 4), 2);
    assert_eq!(days_until_this_week(2, 2), 0);
    assert_eq!(days_until_this_week(2, 0), 0);
    assert_eq!(days_until_this_week(0, 6), 6);
    for from in 0..7u32 {
        for target in 0..7u32 {
            assert_eq!(days_until(WeekRule::Coming, from, target), days_until_weekday(from, target));
            assert_eq!((from as i64 + days_until_weekday(from, target)) % 7, target as i64);
            assert_eq!((from as i64 + days_until_next_weekday(from, target)) % 7, target as i64);
        }
    }
}

#[test]
fn units_of_time_in_seconds() {
    for (unit, k) in [
        ("second", 1), ("seconds", 1), ("sec", 1), ("s", 1), ("minute", 60), ("minutes", 60), ("min", 60), ("m", 60),
        ("hour", 3600), ("hours", 3600), ("hr", 3600), ("h", 3600), ("day", 86_400), ("days", 86_400), ("d", 86_400),
        ("week", 604_800), ("weeks", 604_800), ("w", 604_800), ("month", 2_592_000), ("months", 2_592_000),
        ("year", 31_536_000), ("years", 31_536_000),
    ] {
        assert_eq!(seconds_in(unit), Some(k));
        assert_eq!(parse_duration_component("3", unit), Ok(3 * k));
    }
    assert_eq!(seconds_in("fortnight"), None);
    assert_eq!(seconds_in(""), None);
}

#[test]
fn durations_are_checked() {
    assert_eq!(parse_duration_component("2", "hours"), Ok(7200));
    assert_eq!(parse_duration_component("0", "d"), Ok(0));
    assert_eq!(parse_duration_component("+4", "s"), Ok(4));
    assert_eq!(parse_duration_component("two", "hours"), Err("Invalid number".to_string()));
    assert_eq!(parse_duration_component("2.5", "hours"), Err("Invalid number".to_string()));
    assert_eq!(parse_duration_component("x", "lightyears"), Err("Invalid number".to_string()));
    assert_eq!(parse_duration_component("-1", "lightyears"), Err("Duration cannot be negative".to_string()));
    assert_eq!(parse_duration_component("1", "lightyears"), Err("Unsupported time unit 'lightyears'".to_string()));
    assert_eq!(parse_duration_component("315569519999", "s"), Ok(315_569_519_999));
    assert_eq!(parse_duration_component("315569520000", "s"), Err("Duration is too large".to_string()));
    assert_eq!(parse_duration_component("9223372036854775807", "years"), Err("Duration is too large".to_string()));
    assert_eq!(parse_duration_component("9223372036854775808", "s"), Err("Invalid number".to_string()));
    assert_eq!(parse_compound_offset("1", "day", "3", "hours"), Ok(86_400 + 10_800));
    assert_eq!(parse_compound_offset("x", "day", "3", "y"), Err("Invalid number".to_string()));
    assert_eq!(parse_compound_offset("1", "day", "3", "y"), Err("Unsupported time unit 'y'".to_string()));
    assert_eq!(parse_compound_offset("315569519999", "s", "1", "s"), Err("Duration is too large".to_string()));
}

#[test]
fn words_are_what_white_space_parts() {
    assert_eq!(split_words("  in  2\thours\n"), vec!["in", "2", "hours"]);
    assert_eq!(split_words("one"), vec!["one"]);
    assert!(split_words("").is_empty());
    assert!(split_words(" \t ").is_empty());
    for s in ["a b", " a  b ", "a\u{3000}b c", "", "x", "\nx\ny\n"] {
        let expected: Vec<&str> = s.split_whitespace().collect();
        assert_eq!(split_words(s), expected);
    }
}

#[test]
fn keywords_make_plans() {
    assert_eq!(plan(""), Err("Please enter a due date".to_string()));
    assert_eq!(plan("  \n"), Err("Please enter a due date".to_string()));
    assert_eq!(plan("now"), Ok(DuePlan::Now));
    assert_eq!(plan(" NOW "), Ok(DuePlan::Now));
    assert_eq!(plan("today"), Ok(DuePlan::InDays { days: 0 }));
    assert_eq!(plan("Tomorrow"), Ok(DuePlan::InDays { days: 1 }));
    assert_eq!(plan("tmr"), Ok(DuePlan::InDays { days: 1 }));
    assert_eq!(plan("yesterday"), Ok(DuePlan::InDays { days: -1 }));
    assert_eq!(plan("week"), Ok(DuePlan::InDays { days: 7 }));
    assert_eq!(plan("next week"), Ok(DuePlan::InDays { days: 7 }));
    assert_eq!(plan("month"), Ok(DuePlan::InDays { days: 30 }));
    assert_eq!(plan("next  month"), Ok(DuePlan::InDays { days: 30 }));
    assert_eq!(plan("year"), Ok(DuePlan::InDays { days: 365 }));
    assert_eq!(plan("next year"), Ok(DuePlan::InDays { days: 365 }));
    assert_eq!(plan("fri"), Ok(DuePlan::Weekday { target: 4, rule: WeekRule::Coming }));
    assert_eq!(plan("next monday"), Ok(DuePlan::Weekday { target: 0, rule: WeekRule::Next }));
    assert_eq!(plan("this sunday"), Ok(DuePlan::Weekday { target: 6, rule: WeekRule::This }));
    assert_eq!(plan("friday 15:30"), Ok(DuePlan::WeekdayAt { target: 4, rule: WeekRule::Coming, hour: 15, minute: 30 }));
    assert_eq!(plan("next fri 9:05"), Ok(DuePlan::WeekdayAt { target: 4, rule: WeekRule::Next, hour: 9, minute: 5 }));
    assert_eq!(plan("this tue 23:59"), Ok(DuePlan::WeekdayAt { target: 1, rule: WeekRule::This, hour: 23, minute: 59 }));
    assert_eq!(plan("friday noon"), Err("Invalid time format. Use HH:MM".to_string()));
    assert_eq!(plan("next friday 25:00"), Err("Invalid time format. Use HH:MM".to_string()));
}

#[test]
fn stretches_of_time_make_plans() {
    assert_eq!(plan("in 2 hours"), Ok(DuePlan::After { seconds: 7200 }));
    assert_eq!(plan("3 days"), Ok(DuePlan::After { seconds: 259_200 }));
    assert_eq!(plan("in 1 day 3 hours"), Ok(DuePlan::After { seconds: 97_200 }));
    assert_eq!(plan("1 week 2 d"), Ok(DuePlan::After { seconds: 604_800 + 172_800 }));
    assert_eq!(plan("in two hours"), Err("Invalid number".to_string()));
    assert_eq!(plan("this week"), Err("Invalid number".to_string()));
    assert_eq!(plan("next day"), Err("Invalid number".to_string()));
    assert_eq!(plan("2 parsecs"), Err("Unsupported time unit 'parsecs'".to_string()));
    assert_eq!(plan("in -2 hours"), Err("Duration cannot be negative".to_string()));
    assert_eq!(plan("in 1 day 3"), Err("Invalid number".to_string()));
    assert_eq!(plan("on the first day"), Err("Invalid number".to_string()));
    assert_eq!(plan("next and last"), Err("Unrecognized due date format".to_string()));
    assert_eq!(plan("on 1 day 3 hours"), Err("Unrecognized due date format".to_string()));
    assert_eq!(plan("in 1 day 3 hours 5 minutes"), Err("Unrecognized due date format".to_string()));
}

#[test]
fn dates_and_times_make_plans() {
    assert_eq!(plan("2031-03-10"), Ok(DuePlan::On { day: 741_511 }));
    assert_eq!(plan("2031-3-10"), Ok(DuePlan::On { day: 741_511 }));
    assert_eq!(plan("12-25"), Ok(DuePlan::On { day: 741_801 }));
    assert_eq!(due_plan("03-04", 2032), Ok(DuePlan::On { day: 741_871 }));
    assert_eq!(plan("2031-03-10 08:15"), Ok(DuePlan::At { day: 741_511, hour: 8, minute: 15 }));
    assert_eq!(plan("15:45"), Ok(DuePlan::TodayAt { hour: 15, minute: 45 }));
    assert_eq!(plan("3:00pm"), Ok(DuePlan::TodayAt { hour: 15, minute: 0 }));
    assert_eq!(plan("3:00PM"), Ok(DuePlan::TodayAt { hour: 15, minute: 0 }));
    assert_eq!(plan("12:10am"), Ok(DuePlan::TodayAt { hour: 0, minute: 10 }));
    assert_eq!(plan("12:10pm"), Ok(DuePlan::TodayAt { hour: 12, minute: 10 }));
    assert_eq!(plan("11:59am"), Ok(DuePlan::TodayAt { hour: 11, minute: 59 }));
    assert_eq!(plan("13:00pm"), Ok(DuePlan::TodayAt { hour: 13, minute: 0 }));
    assert_eq!(plan("3:00pmam"), Ok(DuePlan::TodayAt { hour: 3, minute: 0 }));
    assert_eq!(plan("3:00ampm"), Err("Invalid date or time format".to_string()));
    assert_eq!(plan("3pm"), Err("Invalid date or time format".to_string()));
    assert_eq!(plan("am"), Err("Invalid date or time format".to_string()));
    assert_eq!(plan("2031-02-30"), Err("Invalid date or time format".to_string()));
    assert_eq!(plan("someday"), Err("Invalid date or time format".to_string()));
    assert_eq!(plan("2031-03-10 8am"), Err("Invalid number".to_string()));
    assert_eq!(try_parse_date_or_time("7:30", 2031), Ok(DuePlan::TodayAt { hour: 7, minute: 30 }));
}

#[test]
fn plans_are_met_by_the_clock() {
    let c = clock();
    assert_eq!(meant_by(&DuePlan::Now, &c, None), Ok(Candidate::Minute { day: 741_506, hour: 10, minute: 30 }));
    assert_eq!(meant_by(&DuePlan::InDays { days: 1 }, &c, None), Ok(Candidate::Day { day: 741_507 }));
    assert_eq!(meant_by(&DuePlan::InDays { days: -1 }, &c, None), Ok(Candidate::Day { day: 741_505 }));
    assert_eq!(meant_by(&DuePlan::InDays { days: i64::MAX }, &c, None), Err("Failed to parse due date".to_string()));
    assert_eq!(meant_by(&DuePlan::InDays { days: 2_147_483_647 }, &c, None), Err("Failed to parse due date".to_string()));
    assert_eq!(meant_by(&DuePlan::Weekday { target: 4, rule: WeekRule::Coming }, &c, None), Ok(Candidate::Day { day: 741_508 }));
    assert_eq!(meant_by(&DuePlan::Weekday { target: 2, rule: WeekRule::Coming }, &c, None), Ok(Candidate::Day { day: 741_513 }));
    assert_eq!(meant_by(&DuePlan::Weekday { target: 4, rule: WeekRule::Next }, &c, None), Ok(Candidate::Day { day: 741_515 }));
    assert_eq!(meant_by(&DuePlan::Weekday { target: 0, rule: WeekRule::This }, &c, None), Ok(Candidate::Day { day: 741_506 }));
    assert_eq!(
        meant_by(&DuePlan::WeekdayAt { target: 0, rule: WeekRule::Coming, hour: 9, minute: 0 }, &c, None),
        Ok(Candidate::Minute { day: 741_511, hour: 9, minute: 0 })
    );
    assert_eq!(meant_by(&DuePlan::After { seconds: 60 }, &c, Some((741_600, 1, 2))), Ok(Candidate::Minute { day: 741_600, hour: 1, minute: 2 }));
    assert_eq!(meant_by(&DuePlan::After { seconds: 60 }, &c, None), Err("Duration is too large".to_string()));
    assert_eq!(meant_by(&DuePlan::At { day: 5, hour: 1, minute: 2 }, &c, Some((1, 1, 1))), Ok(Candidate::Minute { day: 5, hour: 1, minute: 2 }));
    assert_eq!(meant_by(&DuePlan::On { day: 5 }, &c, None), Ok(Candidate::Day { day: 5 }));
    assert_eq!(meant_by(&DuePlan::TodayAt { hour: 23, minute: 5 }, &c, None), Ok(Candidate::Minute { day: 741_506, hour: 23, minute: 5 }));
}

#[test]
fn instants_are_asked_for_within_bounds() {
    let c = clock();
    assert_eq!(instant_for(&DuePlan::After { seconds: 60 }, &c), Some(1_930_000_060));
    assert_eq!(instant_for(&DuePlan::After { seconds: 253_402_300_799 - 1_930_000_000 }, &c), Some(253_402_300_799));
    assert_eq!(instant_for(&DuePlan::After { seconds: 253_402_300_800 - 1_930_000_000 }, &c), None);
    assert_eq!(instant_for(&DuePlan::After { seconds: i64::MAX }, &c), None);
    assert_eq!(instant_for(&DuePlan::Now, &c), None);
    assert_eq!(minute_for(&Candidate::Minute { day: 1, hour: 2, minute: 3 }), Some((1, 2, 3)));
    assert_eq!(minute_for(&Candidate::Minute { day: 0, hour: 2, minute: 3 }), None);
    assert_eq!(minute_for(&Candidate::Minute { day: 3_652_059, hour: 2, minute: 3 }), Some((3_652_059, 2, 3)));
    assert_eq!(minute_for(&Candidate::Minute { day: 3_652_060, hour: 2, minute: 3 }), None);
    assert_eq!(minute_for(&Candidate::Day { day: 5 }), None);
}

#[test]
fn past_due_dates_are_refused() {
    let c = clock();
    assert_eq!(validate_not_past(&Candidate::Day { day: 741_506 }, &c, None), Ok("2031-03-05".to_string()));
    assert_eq!(validate_not_past(&Candidate::Day { day: 741_801 }, &c, None), Ok("2031-12-25".to_string()));
    assert_eq!(validate_not_past(&Candidate::Day { day: 741_505 }, &c, None), Err("Due date cannot be in the past".to_string()));
    assert_eq!(validate_not_past(&Candidate::Day { day: i32::MAX }, &c, None), Err("Failed to parse due date".to_string()));
    let minute = Candidate::Minute { day: 741_507, hour: 9, minute: 5 };
    assert_eq!(validate_not_past(&minute, &c, Some(1_930_000_001)), Ok("2031-03-06 09:05".to_string()));
    assert_eq!(validate_not_past(&minute, &c, Some(1_930_000_000)), Err("Due date cannot be in the past".to_string()));
    assert_eq!(validate_not_past(&minute, &c, Some(1_929_999_999)), Err("Due date cannot be in the past".to_string()));
    assert_eq!(validate_not_past(&minute, &c, None), Err("Failed to convert due date to local time".to_string()));
    let mut on_the_dot = c;
    on_the_dot.nanos = 0;
    assert_eq!(validate_not_past(&minute, &on_the_dot, Some(1_930_000_000)), Ok("2031-03-06 09:05".to_string()));
    assert_eq!(validate_not_past(&Candidate::Minute { day: 741_507, hour: 24, minute: 0 }, &c, Some(i64::MAX)), Err("Failed to parse due date".to_string()));
}

#[test]
fn due_dates_are_read_now() {
    assert_eq!(parse_due_date(""), Err("Please enter a due date".to_string()));
    assert_eq!(parse_due_date("yesterday"), Err("Due date cannot be in the past".to_string()));
    assert_eq!(parse_due_date("2001-01-01"), Err("Due date cannot be in the past".to_string()));
    assert_eq!(parse_due_date("2001-01-01 10:00"), Err("Due date cannot be in the past".to_string()));
    assert_eq!(parse_due_date("9999-12-31"), Ok("9999-12-31".to_string()));
    assert_eq!(parse_due_date("9998-01-02 03:04"), Ok("9998-01-02 03:04".to_string()));
    assert_eq!(parse_due_date("in 9000 years"), Err("Duration is too large".to_string()));
    assert_eq!(parse_due_date("gibberish"), Err("Invalid date or time format".to_string()));
    let today = parse_due_date("today").expect("today is not over");
    assert_eq!(today.len(), 10);
    let tomorrow = parse_due_date("tomorrow").expect("tomorrow is not over");
    assert!(tomorrow > today);
    let soon = parse_due_date("in 2 hours").expect("two hours from now is not over");
    assert_eq!(soon.len(), 16);
    assert!(soon[..10] >= today[..]);
    let friday = parse_due_date("next friday 15:30").expect("next friday is not over");
    assert!(friday.ends_with(" 15:30"));
}

#[test]
fn overdue_is_told_by_the_clock() {
    let c = clock();
    assert!(!is_overdue_at("No due date", &c, Some(0)));
    assert!(is_overdue_at("2031-03-04", &c, None));
    assert!(!is_overdue_at("2031-03-05", &c, None));
    assert!(!is_overdue_at("2031-03-06", &c, None));
    assert!(is_overdue_at("2031-03-05 10:00", &c, Some(1_929_999_000)));
    assert!(!is_overdue_at("2031-03-05 11:00", &c, Some(1_930_001_000)));
    assert!(!is_overdue_at("2031-03-04 11:00", &c, None));
    assert!(!is_overdue_at("whenever", &c, Some(0)));
    assert!(is_overdue("2001-01-01"));
    assert!(is_overdue("2001-01-01 10:00"));
    assert!(!is_overdue("9999-01-01"));
    assert!(!is_overdue("9999-01-01 10:00"));
    assert!(!is_overdue("No due date"));
    assert!(!is_overdue(""));
}
