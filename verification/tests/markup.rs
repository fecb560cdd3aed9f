use remindee_bot::callbacks::ReminderListKind;
use remindee_bot::calendar::{Date, DateTime, TimeOfDay};
use remindee_bot::controller::reminders_page_entries;
use remindee_bot::generic_reminder::ReminderEntry;
use remindee_bot::lang::languages;
use remindee_bot::markup::{
    done_markup, edit_mode_markup, languages_markup, page_bounds, reminders_page_markup,
    settings_markup, timezone_page_markup, Keyboard, ReminderMarkupEntry,
};

fn rows(k: &Keyboard) -> Vec<Vec<(String, String)>> {
    k.rows
        .iter()
        .map(|row| row.iter().map(|b| (b.text.clone(), b.data.clone())).collect())
        .collect()
}

fn pair(a: &str, b: &str) -> (String, String) {
    (a.to_owned(), b.to_owned())
}

fn mock_entries(n: usize) -> Vec<ReminderEntry> {
    (1..=n)
        .map(|i| ReminderEntry {
            id: Some(i as i64),
            chat_id: 1,
            user_id: None,
            time: DateTime { date: Date { year: 2024, month: 2, day: 2 }, time: TimeOfDay { secs: 2 * 3600 + 2 * 60 + 3 } },
            desc: String::new(),
            paused: false,
            nag_interval_sec: None,
            pattern_text: None,
        })
        .collect()
}

fn now() -> DateTime {
    DateTime { date: Date { year: 2024, month: 1, day: 1 }, time: TimeOfDay { secs: 0 } }
}

#[test]
fn test_delete() {
    let entries = reminders_page_entries(&mock_entries(1), 0, &now());
    let k = reminders_page_markup(0, ReminderListKind::Delete, entries);
    assert_eq!(
        rows(&k),
        vec![vec![pair("02.02 02:02 <>", "delrem::rem_alt::1")], vec![pair("➡️", "delrem::page::1")]]
    );
    let past = reminders_page_entries(&mock_entries(1), 1, &now());
    assert!(past.is_none());
    let k = reminders_page_markup(1, ReminderListKind::Delete, past);
    assert_eq!(rows(&k), vec![vec![pair("⬅️", "delrem::page::0")]]);
}

#[test]
fn test_delete_two_pages() {
    let all = mock_entries(46);
    let first = reminders_page_entries(&all, 0, &now()).unwrap();
    assert_eq!(first.len(), 45);
    let second = reminders_page_entries(&all, 1, &now()).unwrap();
    assert_eq!(second.len(), 1);
    assert_eq!(second[0].rem_id, 46);
    let k = reminders_page_markup(1, ReminderListKind::Delete, Some(second));
    assert_eq!(
        rows(&k),
        vec![
            vec![pair("02.02 02:02 <>", "delrem::rem_alt::46")],
            vec![pair("⬅️", "delrem::page::0"), pair("➡️", "delrem::page::2")],
        ]
    );
}

#[test]
fn timezone_page_pairs_names() {
    let names = vec!["Europe/Amsterdam".to_owned(), "Europe/Berlin".to_owned(), "Asia/Tokyo".to_owned()];
    let k = timezone_page_markup(1, Some(names));
    assert_eq!(
        rows(&k),
        vec![
            vec![pair("Europe/Amsterdam", "seltz::tz::Europe/Amsterdam"), pair("Europe/Berlin", "seltz::tz::Europe/Berlin")],
            vec![pair("Asia/Tokyo", "seltz::tz::Asia/Tokyo")],
            vec![pair("⬅️", "seltz::page::0"), pair("➡️", "seltz::page::2")],
        ]
    );
    let last = timezone_page_markup(0, None);
    assert_eq!(rows(&last), vec![Vec::<(String, String)>::new()]);
}

#[test]
fn test_change_language_menu() {
    let k = languages_markup(&languages());
    assert_eq!(
        rows(&k),
        vec![vec![
            pair("English", "setlang::lang::en"),
            pair("Nederlands", "setlang::lang::nl"),
            pair("Русский", "setlang::lang::ru"),
        ]]
    );
}

#[test]
fn test_settings_menu() {
    let k = settings_markup("Change language");
    assert_eq!(rows(&k), vec![vec![pair("Change language", "settings::change_lang")]]);
}

#[test]
fn test_edit_reply() {
    let k = edit_mode_markup("Time pattern", "Description", 1);
    assert_eq!(
        rows(&k),
        vec![vec![
            pair("Time pattern", "edit_rem_mode::rem_time_pattern::1"),
            pair("Description", "edit_rem_mode::rem_description::1"),
        ]]
    );
}

#[test]
fn done_button_marks_occurrence() {
    let k = done_markup("Done", 42);
    assert_eq!(rows(&k), vec![vec![pair("Done", "donerem::occ::42")]]);
}

#[test]
fn pages_split_a_list() {
    assert_eq!(page_bounds(46, 45, 0), Some((0, 45)));
    assert_eq!(page_bounds(46, 45, 1), Some((45, 46)));
    assert_eq!(page_bounds(46, 45, 2), None);
    assert_eq!(page_bounds(0, 45, 0), None);
    assert_eq!(page_bounds(45, 45, 1), None);
    let entries = vec![ReminderMarkupEntry { text: "a".to_owned(), rem_type: "rem", rem_id: 3 }];
    let k = reminders_page_markup(0, ReminderListKind::Pause, Some(entries));
    assert_eq!(rows(&k), vec![vec![pair("a", "pauserem::rem_alt::3")], vec![pair("➡️", "pauserem::page::1")]]);
}
