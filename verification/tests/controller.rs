use remindee_bot::bot::{needs_markup_clear, next_wakeup, plan_due_reminder};
use remindee_bot::calendar::{Date, DateTime, TimeOfDay};
use remindee_bot::controller::{
    delete_reminder_reply, edit_time_pattern_text, edited_message_plan, edited_message_reply,
    new_rec_id, pause_reminder_reply, replace_reminder_reply, reminders_list_text,
    set_edit_mode_reply, set_language_reply, set_reminder_reply, set_timezone_reply, EditMode,
};
use remindee_bot::grammar::parse_reminder;
use remindee_bot::serializers::Pattern;
use remindee_bot::parsers::ParseError;
use remindee_bot::tg::TgResponse;

fn at(year: i32, month: u32, day: u32, hour: u32, minute: u32, second: u32) -> DateTime {
    DateTime { date: Date { year, month, day }, time: TimeOfDay { secs: hour * 3600 + minute * 60 + second } }
}

#[test]
fn rec_id_joins_chat_and_message() {
    assert_eq!(new_rec_id(-100, 42), "-100:42");
    assert_eq!(new_rec_id(5, 7), "5:7");
}

#[test]
fn new_reminder_replies() {
    match set_reminder_reply(Ok(Ok("10:00 <hi @bob>".to_owned())), 1, 1) {
        Some(TgResponse::SuccessInsert(s)) => assert_eq!(s, "10:00 <hi @\u{200B}bob>"),
        _ => panic!("success"),
    }
    assert!(matches!(set_reminder_reply(Ok(Err(())), 1, 1), Some(TgResponse::FailedInsert)));
    assert!(matches!(set_reminder_reply(Err(ParseError::InvalidFormat), 1, 1), Some(TgResponse::IncorrectRequest)));
    assert!(set_reminder_reply(Err(ParseError::InvalidFormat), 1, -100).is_none());
}

#[test]
fn edit_replies() {
    match replace_reminder_reply(Ok(Some("old".to_owned())), Some("new".to_owned()), true) {
        (true, TgResponse::SuccessEdit(a, b)) => assert_eq!((a.as_str(), b.as_str()), ("old", "new")),
        _ => panic!("edit"),
    }
    assert!(matches!(replace_reminder_reply(Ok(Some("old".to_owned())), None, true), (false, TgResponse::FailedEdit)));
    assert!(matches!(replace_reminder_reply(Ok(Some("old".to_owned())), Some("n".to_owned()), false), (false, TgResponse::FailedEdit)));
    assert!(matches!(replace_reminder_reply(Ok(None), None, false), (false, TgResponse::EditReminderNotFound)));
    assert!(matches!(replace_reminder_reply(Err(()), None, false), (false, TgResponse::FailedEdit)));
    assert_eq!(edit_time_pattern_text("11:00", "call mom"), "11:00 call mom");
    assert_eq!(edited_message_plan(true), (false, true));
    assert_eq!(edited_message_plan(false), (true, false));
    assert!(matches!(edited_message_reply(None), TgResponse::IncorrectRequest));
}

#[test]
fn delete_and_pause_replies() {
    match delete_reminder_reply(Ok(Some("r".to_owned())), true) {
        TgResponse::SuccessDelete(s) => assert_eq!(s, "r"),
        _ => panic!("delete"),
    }
    assert!(matches!(delete_reminder_reply(Ok(Some("r".to_owned())), false), TgResponse::FailedDelete));
    assert!(matches!(delete_reminder_reply(Ok(None), true), TgResponse::FailedDelete));
    assert!(matches!(pause_reminder_reply(Ok(Some("r".to_owned())), Ok(true)), (true, TgResponse::SuccessPause(_))));
    assert!(matches!(pause_reminder_reply(Ok(Some("r".to_owned())), Ok(false)), (false, TgResponse::SuccessResume(_))));
    assert!(matches!(pause_reminder_reply(Ok(Some("r".to_owned())), Err(())), (false, TgResponse::FailedPause)));
    assert!(matches!(pause_reminder_reply(Err(()), Ok(true)), (false, TgResponse::FailedPause)));
}

#[test]
fn settings_replies() {
    assert!(matches!(set_edit_mode_reply(EditMode::TimePattern), TgResponse::EnterNewTimePattern));
    assert!(matches!(set_edit_mode_reply(EditMode::Description), TgResponse::EnterNewDescription));
    match set_timezone_reply("Europe/Amsterdam", false) {
        TgResponse::FailedSetTimezone(t) => assert_eq!(t, "Europe/Amsterdam"),
        _ => panic!("tz"),
    }
    assert!(matches!(set_language_reply("nl", true), TgResponse::ChosenLanguage));
    match set_language_reply("xx", false) {
        TgResponse::FailedSetLanguage(name) => assert_eq!(name, "English"),
        _ => panic!("lang"),
    }
    match set_language_reply("ru", false) {
        TgResponse::FailedSetLanguage(name) => assert_eq!(name, "Русский"),
        _ => panic!("lang"),
    }
}

#[test]
fn responses_name_their_messages() {
    let r = TgResponse::SuccessEdit("a".to_owned(), "b".to_owned());
    assert_eq!(r.message_key(), "SuccessEdit");
    assert_eq!(r.message_args(), vec![("old", "a".to_owned()), ("new", "b".to_owned())]);
    assert_eq!(TgResponse::Help.message_key(), "Help");
    assert!(TgResponse::Help.message_args().is_empty());
}

#[test]
fn list_joins_lines() {
    assert_eq!(reminders_list_text(&vec!["a @x".to_owned(), "b".to_owned()]), "a @\u{200B}x\nb");
    assert_eq!(reminders_list_text(&vec![]), "");
}

#[test]
fn due_recurring_reminder_moves_on() {
    let now = at(2007, 2, 2, 12, 30, 30);
    let parsed = parse_reminder("/1d 10:00 stretch").unwrap().pattern.unwrap();
    let mut pattern = Pattern::from_with_now(parsed, &now).unwrap();
    let first = pattern.next(&now).unwrap();
    assert_eq!(first, at(2007, 2, 3, 10, 0, 0));
    let later = at(2007, 2, 3, 10, 0, 5);
    let plan = plan_due_reminder(&first, Some(pattern), Some(600), "UTC", &later);
    let (next_time, _) = plan.next.as_ref().unwrap();
    assert_eq!(*next_time, at(2007, 2, 4, 10, 0, 0));
    let occ = plan.occurrence.unwrap();
    assert_eq!(occ.due_at, first);
    assert_eq!(occ.nag_interval_sec, 600);
    assert_eq!(occ.stop_at, Some(at(2007, 2, 4, 10, 0, 0)));
}

#[test]
fn due_one_time_reminder_ends() {
    let now = at(2007, 2, 2, 12, 30, 30);
    let parsed = parse_reminder("10:00 call").unwrap().pattern.unwrap();
    let mut pattern = Pattern::from_with_now(parsed, &now).unwrap();
    let first = pattern.next(&now).unwrap();
    assert_eq!(first, at(2007, 2, 3, 10, 0, 0));
    let plan = plan_due_reminder(&first, Some(pattern), Some(60), "UTC", &first);
    assert!(plan.next.is_none());
    assert_eq!(plan.occurrence.unwrap().stop_at, None);
}

#[test]
fn due_countdown_ends() {
    let now = at(2007, 2, 2, 12, 30, 30);
    let parsed = parse_reminder("1h tea").unwrap().pattern.unwrap();
    let mut pattern = Pattern::from_with_now(parsed, &now).unwrap();
    let first = pattern.next(&now).unwrap();
    let plan = plan_due_reminder(&first, Some(pattern), None, "UTC", &first);
    assert!(plan.next.is_none());
    assert!(plan.occurrence.is_none());
}

#[test]
fn loop_decisions() {
    assert!(needs_markup_clear(Some(1), 2));
    assert!(!needs_markup_clear(Some(2), 2));
    assert!(!needs_markup_clear(None, 2));
    let now = at(2007, 2, 2, 23, 59, 30);
    assert_eq!(next_wakeup(None, &now), Some(at(2007, 2, 3, 0, 0, 30)));
    assert_eq!(next_wakeup(Some(at(2008, 1, 1, 0, 0, 0)), &now), Some(at(2008, 1, 1, 0, 0, 0)));
}

#[test]
fn due_reminder_moves_on_in_the_users_timezone() {
    // A daily 10:00 reminder in Moscow is due at 07:00 UTC; the next is a day later,
    // still at 10:00 where the user is.
    let moscow_now = at(2007, 2, 2, 12, 30, 30);
    let parsed = parse_reminder("/1d 10:00 stretch").unwrap().pattern.unwrap();
    let pattern = Pattern::from_with_now(parsed, &moscow_now).unwrap();
    let due_utc = at(2007, 2, 3, 7, 0, 0);
    let now_utc = at(2007, 2, 3, 7, 0, 5);
    let plan = plan_due_reminder(&due_utc, Some(pattern), Some(600), "Europe/Moscow", &now_utc);
    let (next_time, _) = plan.next.as_ref().unwrap();
    assert_eq!(*next_time, at(2007, 2, 4, 7, 0, 0));
    let occ = plan.occurrence.unwrap();
    assert_eq!(occ.due_at, due_utc);
    assert_eq!(occ.stop_at, Some(at(2007, 2, 4, 7, 0, 0)));
}

#[test]
fn due_reminder_in_an_unknown_timezone_ends() {
    let moscow_now = at(2007, 2, 2, 12, 30, 30);
    let parsed = parse_reminder("/1d 10:00 stretch").unwrap().pattern.unwrap();
    let pattern = Pattern::from_with_now(parsed, &moscow_now).unwrap();
    let due = at(2007, 2, 3, 7, 0, 0);
    let plan = plan_due_reminder(&due, Some(pattern), Some(600), "Nowhere/Special", &due);
    assert!(plan.next.is_none());
    assert_eq!(plan.occurrence.unwrap().stop_at, None);
}
