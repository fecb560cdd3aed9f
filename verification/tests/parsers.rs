use remindee_bot::calendar::{Date, DateTime, TimeOfDay};
use remindee_bot::grammar::{
    parse_reminder as parse_grammar, DateDivisor, DatePattern, ReminderPattern, TimePattern,
};
use remindee_bot::parsers::{parse_reminder_detailed, NewReminder, ParseError};
use remindee_bot::serializers::Pattern;
use remindee_bot::zone::{local_time, utc_time};

const TEST_DESCRIPTION: &str = "reminder description";

fn at(year: i32, month: u32, day: u32, hour: u32, minute: u32, second: u32) -> DateTime {
    DateTime {
        date: Date { year, month, day },
        time: TimeOfDay { secs: hour * 3600 + minute * 60 + second },
    }
}

const TEST_TZ: &str = "Europe/Moscow";

/// The current time where the user is: 12:30:30 in Moscow.
fn test_now() -> DateTime {
    at(2007, 2, 2, 12, 30, 30)
}

/// The same time in UTC (Moscow was three hours ahead then).
fn test_now_utc() -> DateTime {
    at(2007, 2, 2, 9, 30, 30)
}

fn in_moscow(utc: &DateTime) -> DateTime {
    local_time(TEST_TZ, utc).expect("a time Moscow can tell")
}

fn parse_reminder(s: &str) -> Option<NewReminder> {
    parse_reminder_detailed(s, 0, 0, "0:0".to_owned(), TEST_TZ, &test_now_utc()).ok()
}

fn parts(t: &DateTime) -> (i32, u32, u32, u32, u32, u32) {
    (
        t.date.year,
        t.date.month,
        t.date.day,
        t.time.secs / 3600,
        t.time.secs / 60 % 60,
        t.time.secs % 60,
    )
}

fn check(text: String, expected: Option<(i32, u32, u32, u32, u32, u32)>) {
    let result = parse_reminder(&text).map(|reminder| {
        assert_eq!(reminder.desc, TEST_DESCRIPTION.to_owned());
        parts(&in_moscow(&reminder.time))
    });
    assert_eq!(result, expected, "{}", text);
}

#[test]
fn test_parse_reminder() {
    let d = TEST_DESCRIPTION;
    check(format!("2.2.2008 12:31:1 {d}"), Some((2008, 2, 2, 12, 31, 1)));
    check(format!("2.2.2007 12:31 {d}"), Some((2007, 2, 2, 12, 31, 0)));
    check(format!("2.2.2007 13 {d}"), Some((2007, 2, 2, 13, 0, 0)));
    check(format!("2.2.2007 {d}"), None);
    check(format!("12:40 {d}"), Some((2007, 2, 2, 12, 40, 0)));
    check(format!("2.2 13 {d}"), Some((2007, 2, 2, 13, 0, 0)));
    check(format!("2 13 {d}"), Some((2007, 2, 2, 13, 0, 0)));
    check(format!("11:0 {d}"), Some((2007, 2, 3, 11, 0, 0)));
    check(format!("12:29 {d}"), Some((2007, 2, 3, 12, 29, 0)));
    check(format!("1 13 {d}"), Some((2007, 3, 1, 13, 0, 0)));
    check(format!("02.01 13:00 {d}"), Some((2008, 1, 2, 13, 0, 0)));
    check(format!("12:30{d}"), None);
}

#[test]
fn test_parse_cron_reminder_invalid() {
    assert!(parse_reminder("cron: */5 * * * invalid").is_none());
}

#[test]
fn test_parse_reminder_with_recurrence_nag_interval() {
    let result = parse_reminder("12:40!10m take pill").expect("reminder should parse");
    assert_eq!(result.nag_interval_sec, Some(600));
}

#[test]
fn test_parse_reminder_with_countdown_nag_interval() {
    let result = parse_reminder("30m!5m turn off stove").expect("countdown reminder should parse");
    assert_eq!(result.nag_interval_sec, Some(300));
}

#[test]
fn test_parse_reminder_with_invalid_nag_interval() {
    assert!(parse_reminder("12:40!1mo take pill").is_none());
}

#[test]
fn test_parse_reminder_with_malformed_nag_suffix() {
    assert!(parse_reminder("12:40!10mTake pill").is_none());
}

fn detailed(s: &str) -> Result<NewReminder, ParseError> {
    parse_reminder_detailed(s, 0, 0, "0:0".to_owned(), TEST_TZ, &test_now_utc())
}

#[test]
fn test_parse_reminder_reports_time_interval_too_large_for_range() {
    assert!(matches!(
        detailed("14-15/2h bad range"),
        Err(ParseError::TimeIntervalTooLargeForRange)
    ));
}

#[test]
fn test_parse_reminder_reports_time_range_end_before_start() {
    assert!(matches!(detailed("18-10/1h bad range"), Err(ParseError::TimeRangeEndBeforeStart)));
}

#[test]
fn test_parse_reminder_reports_date_in_past() {
    assert!(matches!(detailed("10.10.2000 ff"), Err(ParseError::DateInPast)));
}

#[test]
fn test_parse_reminder_reports_date_interval_too_large_for_range() {
    assert!(matches!(
        detailed("11-12/2d 10:00 bad range"),
        Err(ParseError::DateIntervalTooLargeForRange)
    ));
}

#[test]
fn test_parse_reminder_reports_date_range_end_before_start() {
    assert!(matches!(
        detailed("12.02.2026-11.02.2026/1d 10:00 bad range"),
        Err(ParseError::DateRangeEndBeforeStart)
    ));
}

#[test]
fn test_parse_reminder_reports_date_range_end_before_start_with_mixed_year() {
    assert!(matches!(
        detailed("11.02-10.02.2026/1d 10:00 bad range"),
        Err(ParseError::DateRangeEndBeforeStart)
    ));
}

#[test]
fn test_parse_reminder_reports_nag_interval_unsupported_unit() {
    assert!(matches!(
        detailed("12:40!1mo take pill"),
        Err(ParseError::NagIntervalUnsupportedUnit)
    ));
}

#[test]
fn test_parse_reminder_reports_invalid_cron_expression() {
    assert!(matches!(
        detailed("cron: */5 * * * invalid"),
        Err(ParseError::CronExpressionInvalid)
    ));
}

#[test]
fn invalid_format_for_text_without_pattern() {
    assert!(matches!(detailed("just some words"), Err(ParseError::InvalidFormat)));
    assert!(matches!(detailed(""), Err(ParseError::InvalidFormat)));
}

#[test]
fn new_reminder_keeps_chat_user_and_id() {
    let r = parse_reminder_detailed("10:00 test", 5, 7, "9:1".to_owned(), TEST_TZ, &test_now_utc()).unwrap();
    assert_eq!(r.chat_id, 5);
    assert_eq!(r.user_id, 7);
    assert_eq!(r.rec_id, "9:1");
    assert!(!r.paused);
    assert_eq!(r.nag_interval_sec, None);
    // Stored in UTC: 10:00 in Moscow is 07:00 UTC.
    assert_eq!(parts(&r.time), (2007, 2, 3, 7, 0, 0));
    assert_eq!(parts(&in_moscow(&r.time)), (2007, 2, 3, 10, 0, 0));
}

#[test]
fn test_countdown() {
    let parsed = parse_grammar("1h2m3s").unwrap().pattern.unwrap();
    let now = test_now();
    let mut pattern = Pattern::from_with_tz(parsed, TEST_TZ, &test_now_utc()).unwrap();
    let first = pattern.next(&now).unwrap();
    assert_eq!(parts(&first), (2007, 2, 2, 13, 32, 33));
    assert_eq!(pattern.next(&first), None);
}

// ---------------------------------------------------------------------------
// the grammar

#[test]
fn grammar_reads_description_and_time() {
    let r = parse_grammar("  at 10:05:07   wake up   now  ").unwrap();
    assert_eq!(r.description.unwrap().0, "wake up   now");
    match r.pattern.unwrap() {
        ReminderPattern::Recurrence(rec) => {
            assert_eq!(rec.time_patterns.len(), 1);
            match rec.time_patterns[0] {
                TimePattern::Point(t) => assert_eq!((t.hour, t.minute, t.second), (10, 5, 7)),
                _ => panic!("a time point"),
            }
            assert_eq!(rec.dates_patterns.len(), 1);
            assert!(matches!(rec.dates_patterns.first(), DatePattern::Point(h) if h.day.is_none()));
        }
        _ => panic!("a recurrence"),
    }
}

#[test]
fn grammar_reads_weekdays_range() {
    let r = parse_grammar("every fr-mon,WED 9:00 standup").unwrap();
    match r.pattern.unwrap() {
        ReminderPattern::Recurrence(rec) => match rec.dates_patterns.first() {
            DatePattern::Range(range) => match range.date_divisor {
                // friday, saturday, sunday, monday and wednesday
                DateDivisor::Weekdays(w) => assert_eq!(w.bits, 0b111_0101),
                _ => panic!("weekdays"),
            },
            _ => panic!("a range"),
        },
        _ => panic!("a recurrence"),
    }
}

#[test]
fn grammar_reads_dates_and_intervals() {
    let r = parse_grammar("2026/3/4-5.6/2w3d 10-18/1h30m x").unwrap();
    match r.pattern.unwrap() {
        ReminderPattern::Recurrence(rec) => {
            match rec.dates_patterns.first() {
                DatePattern::Range(range) => {
                    assert_eq!(
                        (range.from.year, range.from.month, range.from.day),
                        (Some(2026), Some(3), Some(4))
                    );
                    let until = range.until.unwrap();
                    assert_eq!((until.year, until.month, until.day), (None, Some(6), Some(5)));
                    match range.date_divisor {
                        DateDivisor::Interval(i) => assert_eq!((i.weeks, i.days), (2, 3)),
                        _ => panic!("an interval"),
                    }
                }
                _ => panic!("a range"),
            }
            match rec.time_patterns[0] {
                TimePattern::Range(tr) => {
                    assert_eq!(tr.from.unwrap().hour, 10);
                    assert_eq!(tr.until.unwrap().hour, 18);
                    assert_eq!((tr.interval.hours, tr.interval.minutes), (1, 30));
                }
                _ => panic!("a time range"),
            }
        }
        _ => panic!("a recurrence"),
    }
}

#[test]
fn grammar_reads_countdown_units_and_case() {
    let r = parse_grammar("in 1Y2MO3W4D5H6MINS7S tea").unwrap();
    match r.pattern.unwrap() {
        ReminderPattern::Countdown(c) => {
            let i = c.durations[0];
            assert_eq!(
                (i.years, i.months, i.weeks, i.days, i.hours, i.minutes, i.seconds),
                (1, 2, 3, 4, 5, 6, 7)
            );
        }
        _ => panic!("a countdown"),
    }
}

#[test]
fn grammar_reads_cron_expression() {
    let r = parse_grammar("cron: */5 * * * * cron test").unwrap();
    assert_eq!(r.description.unwrap().0, "cron test");
    match r.pattern.unwrap() {
        ReminderPattern::Cron(c) => assert_eq!(c.expr, "*/5 * * * *"),
        _ => panic!("a cron pattern"),
    }
}

#[test]
fn grammar_refuses_numbers_that_overflow() {
    assert!(parse_grammar("99999999999m tea").is_none());
    assert!(parse_grammar("10:00!99999999999s tea").is_none());
}

#[test]
fn grammar_refuses_text_glued_to_pattern() {
    assert!(parse_grammar("10:00test").is_none());
    assert!(parse_grammar("text only").is_none());
}

#[test]
fn test_parse_time_range_rolls_to_next_day_after_until() {
    // 13:23 in Moscow.
    let now = at(2007, 2, 2, 10, 23, 0);
    let result = parse_reminder_detailed("10-13/1h desc", 0, 0, "0:0".to_owned(), TEST_TZ, &now)
        .expect("reminder should parse");
    let local = in_moscow(&result.time);
    assert_eq!(parts(&local), (2007, 2, 3, 10, 0, 0));
    // The stored pattern goes on from there, hour by hour, where the user is.
    let mut pattern = result.pattern;
    let next = pattern.next(&local).expect("a later slot");
    assert_eq!(parts(&next), (2007, 2, 3, 11, 0, 0));
}

#[test]
fn time_range_with_slots_left_today_stays_today() {
    let now = at(2007, 2, 2, 11, 23, 0);
    let result = parse_reminder_detailed("10-13/1h desc", 0, 0, "0:0".to_owned(), "UTC", &now)
        .expect("reminder should parse");
    assert_eq!(parts(&result.time), (2007, 2, 2, 12, 0, 0));
}

#[test]
fn time_range_rolls_over_at_its_last_slot() {
    // At the last slot itself nothing is left today: the next slot is tomorrow's first.
    let now = at(2007, 2, 2, 13, 0, 0);
    let result = parse_reminder_detailed("10-13/1h desc", 0, 0, "0:0".to_owned(), "UTC", &now)
        .expect("reminder should parse");
    assert_eq!(parts(&result.time), (2007, 2, 3, 10, 0, 0));
}

#[test]
fn time_range_with_a_date_does_not_roll_over() {
    // An explicit day of the month is kept: nothing is left of it.
    let now = at(2007, 2, 2, 13, 23, 0);
    assert!(parse_reminder_detailed("2 10-13/1h desc", 0, 0, "0:0".to_owned(), "UTC", &now).is_err());
}

#[test]
fn times_are_told_in_the_users_timezone() {
    // Moscow was three hours ahead of UTC in February 2007.
    assert_eq!(local_time("Europe/Moscow", &at(2007, 2, 2, 22, 0, 0)), Some(at(2007, 2, 3, 1, 0, 0)));
    assert_eq!(utc_time("Europe/Moscow", &at(2007, 2, 3, 1, 0, 0)), Some(at(2007, 2, 2, 22, 0, 0)));
    // Amsterdam moves its clocks from 02:00 to 03:00 on 25 March 2007.
    assert_eq!(local_time("Europe/Amsterdam", &at(2007, 3, 25, 0, 30, 0)), Some(at(2007, 3, 25, 1, 30, 0)));
    assert_eq!(local_time("Europe/Amsterdam", &at(2007, 3, 25, 1, 30, 0)), Some(at(2007, 3, 25, 3, 30, 0)));
    assert_eq!(utc_time("Europe/Amsterdam", &at(2007, 3, 25, 2, 30, 0)), None);
    // On 28 October 2007 they show 02:30 twice; the earlier is taken.
    assert_eq!(utc_time("Europe/Amsterdam", &at(2007, 10, 28, 2, 30, 0)), Some(at(2007, 10, 28, 0, 30, 0)));
    assert_eq!(local_time("Nowhere/Special", &at(2007, 2, 2, 0, 0, 0)), None);
}

#[test]
fn unknown_timezone_refuses_the_text() {
    let r = parse_reminder_detailed("10:00 test", 0, 0, "0:0".to_owned(), "Nowhere/Special", &test_now_utc());
    assert!(matches!(r, Err(ParseError::InvalidFormat)));
    let parsed = parse_grammar("10:00 test").unwrap().pattern.unwrap();
    assert!(Pattern::from_with_tz(parsed, "Nowhere/Special", &test_now_utc()).is_err());
}

#[test]
fn time_that_the_clocks_skip_is_refused() {
    // 02:30 does not happen in Amsterdam on 25 March 2007.
    let now = at(2007, 3, 24, 12, 0, 0);
    let r = parse_reminder_detailed("25.03.2007 2:30 test", 0, 0, "0:0".to_owned(), "Europe/Amsterdam", &now);
    assert!(matches!(r, Err(ParseError::InvalidFormat)));
}
