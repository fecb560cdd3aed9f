use remindee_bot::calendar::{Date, DateTime, TimeOfDay};
use remindee_bot::controller::{edited_message_plan, edited_message_reply, parse_error_reply, set_reminder_reply};
use remindee_bot::generic_reminder::{to_unescaped_string, ReminderEntry};
use remindee_bot::parsers::{parse_reminder_detailed, ParseError};
use remindee_bot::tg::TgResponse;

const USER: u64 = 1234;

fn new_year_2024() -> DateTime {
    DateTime { date: Date { year: 2024, month: 1, day: 1 }, time: TimeOfDay { secs: 0 } }
}

/// The answer the bot gives in a private chat to a message with `text`, the reminder
/// being stored without trouble.
fn private_reply(text: &str) -> Option<TgResponse> {
    let now = new_year_2024();
    let outcome = parse_reminder_detailed(text, USER as i64, USER, "1234:1".to_owned(), "UTC", &now)
        .map(|r| {
            let entry = ReminderEntry {
                id: Some(1),
                chat_id: r.chat_id,
                user_id: Some(r.user_id as i64),
                time: r.time,
                desc: r.desc,
                paused: r.paused,
                nag_interval_sec: r.nag_interval_sec,
                pattern_text: None,
            };
            Ok(to_unescaped_string(&entry, &now))
        });
    set_reminder_reply(outcome, USER, USER as i64)
}

fn key_of(reply: Option<TgResponse>) -> &'static str {
    reply.expect("an answer").message_key()
}

#[test]
fn test_new_reminder() {
    match private_reply("10:00 test") {
        Some(TgResponse::SuccessInsert(s)) => assert_eq!(s, "10:00 <test>"),
        other => panic!("unexpected answer {other:?}"),
    }
}

#[test]
fn test_time_interval_too_large_for_range_message() {
    assert_eq!(key_of(private_reply("14-15/2h gg")), "TimeIntervalTooLargeForRange");
}

#[test]
fn test_time_range_end_before_start_message() {
    assert_eq!(key_of(private_reply("18-10/1h ff")), "TimeRangeEndBeforeStart");
}

#[test]
fn test_date_interval_too_large_for_range_message() {
    assert_eq!(key_of(private_reply("11-12/2d 10:00 ff")), "DateIntervalTooLargeForRange");
}

#[test]
fn test_date_range_end_before_start_message() {
    assert_eq!(key_of(private_reply("12.02.2026-11.02.2026/1d 10:00 ff")), "DateRangeEndBeforeStart");
}

#[test]
fn test_date_range_end_before_start_message_with_mixed_year() {
    assert_eq!(key_of(private_reply("11.02-10.02.2026/1d 10:00 ff")), "DateRangeEndBeforeStart");
}

#[test]
fn test_date_in_past_message() {
    assert_eq!(key_of(private_reply("10.10.2000 ff")), "DateInPast");
}

#[test]
fn test_nag_interval_unsupported_unit_message() {
    assert_eq!(key_of(private_reply("12:40!1mo take pill")), "NagIntervalUnsupportedUnit");
}

#[test]
fn test_invalid_cron_expression_message() {
    assert_eq!(key_of(private_reply("cron: */5 * * * invalid")), "CronExpressionInvalid");
}

#[test]
fn test_edited_message_sets_reminder_when_original_invalid() {
    // The first text is no reminder: the user is told so.
    assert!(matches!(private_reply("10:00test"), Some(TgResponse::IncorrectRequest)));
    // Its edited text is read anew; no reminder hangs on the message yet, so one is set
    // and the edited message is linked to it.
    assert_eq!(edited_message_plan(false), (true, false));
    match edited_message_reply(private_reply("10:00 test")) {
        TgResponse::SuccessInsert(s) => assert_eq!(s, "10:00 <test>"),
        other => panic!("unexpected answer {other:?}"),
    }
}

#[test]
fn unreadable_text_in_a_group_is_passed_over() {
    let outcome = Err(ParseError::DateInPast);
    assert!(set_reminder_reply(outcome, USER, -100).is_none());
    assert!(matches!(set_reminder_reply(Err(ParseError::InvalidFormat), USER, USER as i64), Some(TgResponse::IncorrectRequest)));
}

#[test]
fn each_refusal_has_its_own_message() {
    let all = [
        (ParseError::InvalidFormat, "IncorrectRequest"),
        (ParseError::DateInPast, "DateInPast"),
        (ParseError::TimeRangeEndBeforeStart, "TimeRangeEndBeforeStart"),
        (ParseError::DateRangeEndBeforeStart, "DateRangeEndBeforeStart"),
        (ParseError::TimeIntervalTooLargeForRange, "TimeIntervalTooLargeForRange"),
        (ParseError::DateIntervalTooLargeForRange, "DateIntervalTooLargeForRange"),
        (ParseError::NagIntervalUnsupportedUnit, "NagIntervalUnsupportedUnit"),
        (ParseError::CronExpressionInvalid, "CronExpressionInvalid"),
    ];
    for (e, key) in all {
        assert_eq!(parse_error_reply(e).message_key(), key);
    }
}
