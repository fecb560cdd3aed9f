use remindee_bot::calendar::{Date, DateTime, TimeOfDay};
use remindee_bot::callbacks::{done_occurrence, ReminderListKind};
use remindee_bot::controller::{
    delete_reminder_reply, pause_reminder_reply, reminders_list_text, reminders_page, reminders_page_entries,
    replace_reminder_reply, set_timezone_reply, EditMode,
};
use remindee_bot::generic_reminder::{to_unescaped_string, ReminderEntry};
use remindee_bot::handlers::{get_handler, CallbackAction, Command, Incoming, Route, State};
use remindee_bot::markup::{reminders_page_markup, Keyboard};
use remindee_bot::tg::TgResponse;

fn command(c: Command, private_chat: bool) -> Incoming {
    Incoming::Message { command: Some(c), private_chat, has_location: false, text: None }
}

fn text(t: &str) -> Incoming {
    Incoming::Message { command: None, private_chat: true, has_location: false, text: Some(t.to_owned()) }
}

fn button(data: &str) -> Incoming {
    Incoming::CallbackQuery { data: Some(data.to_owned()) }
}

fn new_year_2024() -> DateTime {
    DateTime { date: Date { year: 2024, month: 1, day: 1 }, time: TimeOfDay { secs: 0 } }
}

/// A reminder due on February 2nd at 02:02:03 with no description.
fn basic_reminder(id: i64) -> ReminderEntry {
    ReminderEntry {
        id: Some(id),
        chat_id: 1,
        user_id: Some(1),
        time: DateTime { date: Date { year: 2024, month: 2, day: 2 }, time: TimeOfDay { secs: 2 * 3600 + 2 * 60 + 3 } },
        desc: String::new(),
        paused: false,
        nag_interval_sec: None,
        pattern_text: None,
    }
}

fn rows(k: &Keyboard) -> Vec<Vec<(String, String)>> {
    k.rows.iter().map(|row| row.iter().map(|b| (b.text.clone(), b.data.clone())).collect()).collect()
}

fn pair(a: &str, b: &str) -> (String, String) {
    (a.to_owned(), b.to_owned())
}

#[test]
fn test_help() {
    assert!(matches!(get_handler(command(Command::Help, true), true, false, State::Default), Route::Help));
    assert_eq!(TgResponse::Help.message_key(), "Help");
}

#[test]
fn test_start() {
    assert!(matches!(get_handler(command(Command::Start, true), true, false, State::Default), Route::Start));
}

#[test]
fn test_start_group() {
    assert!(matches!(get_handler(command(Command::Start, false), true, false, State::Default), Route::StartGroup));
}

#[test]
fn test_timezone() {
    assert!(matches!(get_handler(command(Command::Timezone, true), true, true, State::Default), Route::ShowTimezone));
    match set_timezone_reply("Europe/Amsterdam", true) {
        TgResponse::ChosenTimezone(tz) => assert_eq!(tz, "Europe/Amsterdam"),
        other => panic!("unexpected answer {other:?}"),
    }
}

#[test]
fn test_set_timezone() {
    assert!(matches!(
        get_handler(command(Command::SetTimezone, true), true, true, State::Default),
        Route::ChooseTimezone
    ));
}

#[test]
fn test_list_no_timezone() {
    assert!(matches!(get_handler(command(Command::List, true), true, false, State::Default), Route::ChooseTimezone));
}

#[test]
fn test_list_no_reminders() {
    assert!(matches!(get_handler(command(Command::List, true), true, true, State::Default), Route::List));
    assert_eq!(reminders_list_text(&Vec::new()), "");
}

#[test]
fn test_list_one_reminder() {
    let line = to_unescaped_string(&basic_reminder(1), &new_year_2024());
    assert_eq!(line, "02.02 02:02 <>");
    assert_eq!(reminders_list_text(&vec![line.clone()]), line);
}

#[test]
fn test_delete_reply() {
    // `/delete` in reply to a reminder's message deletes that reminder at once.
    assert!(matches!(get_handler(command(Command::Delete, true), true, true, State::Default), Route::StartDelete));
    let line = to_unescaped_string(&basic_reminder(1), &new_year_2024());
    match delete_reminder_reply(Ok(Some(line)), true) {
        TgResponse::SuccessDelete(s) => assert_eq!(s, "02.02 02:02 <>"),
        other => panic!("unexpected answer {other:?}"),
    }
}

#[test]
fn test_delete_still_one_page() {
    let all: Vec<ReminderEntry> = (1..=45).map(basic_reminder).collect();
    let now = new_year_2024();
    let first = reminders_page_markup(0, ReminderListKind::Delete, reminders_page_entries(&all, 0, &now));
    let mut page0: Vec<Vec<(String, String)>> =
        (1..=45).map(|i| vec![pair("02.02 02:02 <>", &format!("delrem::rem_alt::{i}"))]).collect();
    page0.push(vec![pair("➡️", "delrem::page::1")]);
    assert_eq!(rows(&first), page0);

    // The arrow leads to an empty page with only a way back.
    match get_handler(button("delrem::page::1"), true, true, State::Default) {
        Route::Callback(CallbackAction::DeletePage(1)) => {}
        other => panic!("unexpected route {other:?}"),
    }
    let second = reminders_page_markup(1, ReminderListKind::Delete, reminders_page_entries(&all, 1, &now));
    assert_eq!(rows(&second), vec![vec![pair("⬅️", "delrem::page::0")]]);

    match get_handler(button("delrem::page::0"), true, true, State::Default) {
        Route::Callback(CallbackAction::DeletePage(0)) => {}
        other => panic!("unexpected route {other:?}"),
    }
    match get_handler(button("delrem::rem_alt::1"), true, true, State::Default) {
        Route::Callback(CallbackAction::DeleteReminder(1)) => {}
        other => panic!("unexpected route {other:?}"),
    }
    match delete_reminder_reply(Ok(Some("02.02 02:02 <>".to_owned())), true) {
        TgResponse::SuccessDelete(s) => assert_eq!(s, "02.02 02:02 <>"),
        other => panic!("unexpected answer {other:?}"),
    }
}

#[test]
fn test_edit_reminder_not_found() {
    match get_handler(button("editrem::rem_alt::1"), true, true, State::Default) {
        Route::Callback(CallbackAction::ChooseEditMode(1)) => {}
        other => panic!("unexpected route {other:?}"),
    }
    match get_handler(button("edit_rem_mode::rem_description::1"), true, true, State::Default) {
        Route::Callback(CallbackAction::EditDescription(1)) => {}
        other => panic!("unexpected route {other:?}"),
    }
    let editing = State::Edit { id: 1, mode: EditMode::Description };
    match get_handler(text("new description"), true, true, editing) {
        Route::EditReminder(1, EditMode::Description, t) => assert_eq!(t, "new description"),
        other => panic!("unexpected route {other:?}"),
    }
    // The reminder is gone by then.
    let (took, answer) = replace_reminder_reply(Ok(None), None, false);
    assert!(!took);
    assert!(matches!(answer, TgResponse::EditReminderNotFound));
}

#[test]
fn test_pause() {
    let all = vec![basic_reminder(1)];
    let now = new_year_2024();
    let k = reminders_page_markup(0, ReminderListKind::Pause, reminders_page_entries(&all, 0, &now));
    assert_eq!(
        rows(&k),
        vec![vec![pair("02.02 02:02 <>", "pauserem::rem_alt::1")], vec![pair("➡️", "pauserem::page::1")]]
    );
    match get_handler(button("pauserem::rem_alt::1"), true, true, State::Default) {
        Route::Callback(CallbackAction::PauseReminder(1)) => {}
        other => panic!("unexpected route {other:?}"),
    }
    // The first press pauses the reminder and closes its open occurrences.
    let (close, answer) = pause_reminder_reply(Ok(Some("02.02 02:02 <>".to_owned())), Ok(true));
    assert!(close);
    match answer {
        TgResponse::SuccessPause(s) => assert_eq!(s, "02.02 02:02 <>"),
        other => panic!("unexpected answer {other:?}"),
    }
    // The second resumes it.
    let (close, answer) = pause_reminder_reply(Ok(Some("02.02 02:02 <>".to_owned())), Ok(false));
    assert!(!close);
    match answer {
        TgResponse::SuccessResume(s) => assert_eq!(s, "02.02 02:02 <>"),
        other => panic!("unexpected answer {other:?}"),
    }
}

#[test]
fn test_done_callback_without_timezone() {
    let data = done_occurrence(1);
    match get_handler(button(&data), true, false, State::Default) {
        Route::Callback(CallbackAction::DoneOccurrence(1)) => {}
        other => panic!("unexpected route {other:?}"),
    }
}

#[test]
fn test_done_callback_clears_stale_markup() {
    let data = done_occurrence(1);
    match get_handler(button(&data), true, true, State::Default) {
        Route::Callback(CallbackAction::DoneOccurrence(1)) => {}
        other => panic!("unexpected route {other:?}"),
    }
}

#[test]
fn whole_page_of_a_list() {
    let all: Vec<ReminderEntry> = (1..=46).map(basic_reminder).collect();
    let now = new_year_2024();
    let second = reminders_page(&all, 1, ReminderListKind::Delete, &now);
    assert_eq!(
        rows(&second),
        vec![
            vec![pair("02.02 02:02 <>", "delrem::rem_alt::46")],
            vec![pair("⬅️", "delrem::page::0"), pair("➡️", "delrem::page::2")],
        ]
    );
    let first = reminders_page(&all, 0, ReminderListKind::Edit, &now);
    assert_eq!(first.rows.len(), 46);
    assert_eq!(rows(&first)[0], vec![pair("02.02 02:02 <>", "editrem::rem_alt::1")]);
    assert_eq!(rows(&first)[45], vec![pair("➡️", "editrem::page::1")]);
    let past = reminders_page(&all, 2, ReminderListKind::Pause, &now);
    assert_eq!(rows(&past), vec![vec![pair("⬅️", "pauserem::page::1")]]);
    let none = reminders_page(&Vec::new(), 0, ReminderListKind::Pause, &now);
    assert_eq!(rows(&none), vec![Vec::<(String, String)>::new()]);
}
