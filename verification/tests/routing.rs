use remindee_bot::callbacks::{
    done_occurrence, edit_mode_description, edit_mode_time_pattern, reminder_alter, reminder_page,
    select_timezone_page, select_timezone_tz, set_language, settings_change_language,
    ReminderListKind,
};
use remindee_bot::controller::EditMode;
use remindee_bot::handlers::{
    callback_handler, get_handler, route_callback, CallbackAction, Command, Incoming, Route, State,
};

fn message(command: Option<Command>, private_chat: bool, text: Option<&str>) -> Incoming {
    Incoming::Message {
        command,
        private_chat,
        has_location: false,
        text: text.map(|t| t.to_owned()),
    }
}

#[test]
fn commands_route_to_their_handlers() {
    assert!(matches!(get_handler(message(Some(Command::Help), true, None), true, false, State::Default), Route::Help));
    assert!(matches!(get_handler(message(Some(Command::Start), true, None), true, false, State::Default), Route::Start));
    assert!(matches!(get_handler(message(Some(Command::Start), false, None), true, false, State::Default), Route::StartGroup));
    assert!(matches!(get_handler(message(Some(Command::List), true, None), true, true, State::Default), Route::List));
    assert!(matches!(get_handler(message(Some(Command::List), true, None), true, false, State::Default), Route::ChooseTimezone));
    assert!(matches!(get_handler(message(Some(Command::Settings), true, None), true, false, State::Default), Route::ChooseSettings));
    match get_handler(message(Some(Command::SetReminder("10:00 x".to_owned())), false, None), true, true, State::Default) {
        Route::SetReminder(t) => assert_eq!(t, "10:00 x"),
        _ => panic!("set"),
    }
}

#[test]
fn plain_messages_set_or_edit_reminders() {
    match get_handler(message(None, true, Some("10:00 test")), true, true, State::Default) {
        Route::SetReminder(t) => assert_eq!(t, "10:00 test"),
        _ => panic!("set"),
    }
    let editing = State::Edit { id: 7, mode: EditMode::Description };
    match get_handler(message(None, true, Some("new description")), true, true, editing) {
        Route::EditReminder(id, EditMode::Description, t) => {
            assert_eq!(id, 7);
            assert_eq!(t, "new description");
        }
        _ => panic!("edit"),
    }
    assert!(matches!(get_handler(message(None, false, Some("hi")), true, true, State::Default), Route::Ignore));
    assert!(matches!(get_handler(message(None, true, Some("hi")), true, false, State::Default), Route::ChooseTimezone));
    assert!(matches!(get_handler(message(None, true, None), true, true, State::Default), Route::Incorrect));
    let location = Incoming::Message { command: None, private_chat: true, has_location: true, text: None };
    assert!(matches!(get_handler(location, true, false, State::Default), Route::SetLocation));
    assert!(matches!(get_handler(message(None, true, Some("x")), false, true, State::Default), Route::Ignore));
}

#[test]
fn edited_messages_edit_reminders() {
    let edited = Incoming::EditedMessage { command: None, private_chat: true, text: Some("10:00 test".to_owned()) };
    match get_handler(edited, true, true, State::Default) {
        Route::EditFromEditedMessage(t) => assert_eq!(t, "10:00 test"),
        _ => panic!("edited"),
    }
    let edited_cmd = Incoming::EditedMessage { command: Some(Command::List), private_chat: true, text: None };
    assert!(matches!(get_handler(edited_cmd, true, true, State::Default), Route::Incorrect));
}

#[test]
fn buttons_route_back_to_what_they_stand_for() {
    let route = |data: String, tz: bool| route_callback(&data, tz);
    assert!(matches!(route(done_occurrence(42), false), Route::Callback(CallbackAction::DoneOccurrence(42))));
    assert!(matches!(route(select_timezone_page(3), false), Route::Callback(CallbackAction::SelectTimezonePage(3))));
    match route(select_timezone_tz("Europe/Amsterdam"), false) {
        Route::Callback(CallbackAction::SetTimezone(t)) => assert_eq!(t, "Europe/Amsterdam"),
        _ => panic!("timezone"),
    }
    match route(set_language("nl"), false) {
        Route::Callback(CallbackAction::SetLanguage(c)) => assert_eq!(c, "nl"),
        _ => panic!("language"),
    }
    assert!(matches!(route(settings_change_language(), false), Route::Callback(CallbackAction::ChooseLanguage)));
    assert!(matches!(route(reminder_alter(ReminderListKind::Delete, "rem", 1), true), Route::Callback(CallbackAction::DeleteReminder(1))));
    assert!(matches!(route(reminder_page(ReminderListKind::Delete, 1), true), Route::Callback(CallbackAction::DeletePage(1))));
    assert!(matches!(route(reminder_alter(ReminderListKind::Edit, "rem", 5), true), Route::Callback(CallbackAction::ChooseEditMode(5))));
    assert!(matches!(route(reminder_page(ReminderListKind::Pause, 2), true), Route::Callback(CallbackAction::PausePage(2))));
    assert!(matches!(route(reminder_alter(ReminderListKind::Pause, "rem", 9), true), Route::Callback(CallbackAction::PauseReminder(9))));
    assert!(matches!(route(edit_mode_time_pattern(1), true), Route::Callback(CallbackAction::EditTimePattern(1))));
    assert!(matches!(route(edit_mode_description(1), true), Route::Callback(CallbackAction::EditDescription(1))));
    assert!(matches!(route(reminder_alter(ReminderListKind::Delete, "rem", 1), false), Route::Ignore));
}

#[test]
fn unknown_button_data_is_incorrect() {
    assert!(matches!(callback_handler("nonsense"), CallbackAction::Incorrect));
    assert!(matches!(route_callback("seltz::other", true), Route::Callback(CallbackAction::Incorrect)));
    assert!(matches!(route_callback("donerem::occ::abc", true), Route::Callback(CallbackAction::Incorrect)));
    assert!(matches!(route_callback("settings::other", false), Route::Callback(CallbackAction::Incorrect)));
}
