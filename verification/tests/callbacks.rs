use remindee_bot::callbacks::{
    done_occurrence, edit_mode_description, edit_mode_time_pattern, is_done_occurrence,
    is_select_timezone, is_set_language, is_settings, is_settings_change_language,
    parse_done_occurrence, parse_edit_mode_description, parse_edit_mode_time_pattern,
    parse_i64_with_prefix, parse_reminder_alter, parse_reminder_page,
    parse_select_timezone_page, parse_select_timezone_tz, parse_set_language,
    parse_usize_with_prefix, reminder_alter, reminder_page, select_timezone_page,
    select_timezone_tz, set_language, settings_change_language, ReminderListKind,
};

#[test]
fn done_occurrence_roundtrip() {
    let data = done_occurrence(42);
    assert!(is_done_occurrence(&data));
    assert_eq!(parse_done_occurrence(&data), Some(42));
}

#[test]
fn parse_done_occurrence_rejects_invalid_data() {
    assert_eq!(parse_done_occurrence("donerem::occ::abc"), None);
    assert_eq!(parse_done_occurrence("settings::change_lang"), None);
}

#[test]
fn timezone_callbacks_roundtrip() {
    let page = select_timezone_page(3);
    assert!(is_select_timezone(&page));
    assert_eq!(parse_select_timezone_page(&page), Some(3));

    let tz = select_timezone_tz("Europe/Amsterdam");
    assert!(is_select_timezone(&tz));
    assert_eq!(parse_select_timezone_tz(&tz), Some("Europe/Amsterdam"));
}

#[test]
fn language_callbacks_roundtrip() {
    let lang = set_language("nl");
    assert!(is_set_language(&lang));
    assert_eq!(parse_set_language(&lang), Some("nl"));
}

#[test]
fn settings_callbacks_roundtrip() {
    let data = settings_change_language();
    assert!(is_settings(&data));
    assert!(is_settings_change_language(&data));
}

#[test]
fn reminder_callbacks_roundtrip() {
    let page = reminder_page(ReminderListKind::Delete, 1);
    assert_eq!(parse_reminder_page(ReminderListKind::Delete, &page), Some(1));

    let rem = reminder_alter(ReminderListKind::Pause, "rem", 11);
    assert_eq!(parse_reminder_alter(ReminderListKind::Pause, "rem", &rem), Some(11));
}

#[test]
fn edit_mode_callbacks_roundtrip() {
    let time = edit_mode_time_pattern(7);
    assert_eq!(parse_edit_mode_time_pattern(&time), Some(7));

    let desc = edit_mode_description(8);
    assert_eq!(parse_edit_mode_description(&desc), Some(8));
}

#[test]
fn callback_data_exact_text() {
    assert_eq!(done_occurrence(-7), "donerem::occ::-7");
    assert_eq!(done_occurrence(i64::MIN), "donerem::occ::-9223372036854775808");
    assert_eq!(select_timezone_page(0), "seltz::page::0");
    assert_eq!(reminder_page(ReminderListKind::Edit, 12), "editrem::page::12");
    assert_eq!(reminder_alter(ReminderListKind::Delete, "rem", 5), "delrem::rem_alt::5");
    assert_eq!(edit_mode_time_pattern(1), "edit_rem_mode::rem_time_pattern::1");
    assert_eq!(set_language("ru"), "setlang::lang::ru");
}

#[test]
fn number_reading_follows_str_parse() {
    assert_eq!(parse_i64_with_prefix("p", "p+12"), Some(12));
    assert_eq!(parse_i64_with_prefix("p", "p-12"), Some(-12));
    assert_eq!(parse_i64_with_prefix("p", "p-"), None);
    assert_eq!(parse_i64_with_prefix("p", "p"), None);
    assert_eq!(parse_i64_with_prefix("p", "p9223372036854775807"), Some(i64::MAX));
    assert_eq!(parse_i64_with_prefix("p", "p9223372036854775808"), None);
    assert_eq!(parse_i64_with_prefix("p", "p-9223372036854775808"), Some(i64::MIN));
    assert_eq!(parse_i64_with_prefix("p", "q1"), None);
    assert_eq!(parse_usize_with_prefix("p", "p-1"), None);
    assert_eq!(parse_usize_with_prefix("p", "p+007"), Some(7));
    assert_eq!(parse_reminder_page(ReminderListKind::Pause, "delrem::page::1"), None);
}
