use remindee_bot::calendar::{Date, DateTime, TimeOfDay};
use remindee_bot::generic_reminder::{
    escape_mentions, format_nag_interval, format_reminder, markdown_escape,
    serialize_time_unescaped, sort_reminders, to_string, to_string_with_mention,
    to_unescaped_string, ReminderEntry,
};

fn at(year: i32, month: u32, day: u32, hour: u32, minute: u32) -> DateTime {
    DateTime { date: Date { year, month, day }, time: TimeOfDay { secs: hour * 3600 + minute * 60 } }
}

fn entry(time: DateTime, desc: &str, paused: bool, nag: Option<i64>) -> ReminderEntry {
    ReminderEntry {
        id: Some(1),
        chat_id: 1,
        user_id: Some(42),
        time,
        desc: desc.to_owned(),
        paused,
        nag_interval_sec: nag,
        pattern_text: None,
    }
}

#[test]
fn nag_interval_formats() {
    assert_eq!(format_nag_interval(600), "10m");
    assert_eq!(format_nag_interval(300), "5m");
    assert_eq!(format_nag_interval(3661), "1h1m1s");
    assert_eq!(format_nag_interval(604800 + 86400 + 3661), "1w1d1h1m1s");
    assert_eq!(format_nag_interval(7200), "2h");
    assert_eq!(format_nag_interval(0), "0s");
    assert_eq!(format_nag_interval(-5), "0s");
}

#[test]
fn time_shows_date_only_when_not_today() {
    let now = at(2007, 2, 2, 12, 30);
    assert_eq!(serialize_time_unescaped(&at(2007, 2, 2, 12, 40), &now), "12:40");
    assert_eq!(serialize_time_unescaped(&at(2007, 2, 3, 9, 5), &now), "03.02 09:05");
    assert_eq!(serialize_time_unescaped(&at(2008, 1, 2, 13, 0), &now), "02.01.2008 13:00");
}

#[test]
fn reminder_as_plain_and_markdown_text() {
    let now = at(2007, 2, 2, 12, 30);
    let r = entry(at(2007, 2, 3, 9, 5), "take pill", true, Some(600));
    assert_eq!(to_unescaped_string(&r, &now), "⏸ 03.02 09:05 <take pill> [!10m]");
    assert_eq!(to_string(&r, &now), "⏸ 03\\.02 09:05 <*take pill*\\> \\[\\!10m\\]");
    let plain = entry(at(2007, 2, 2, 2, 2), "", false, None);
    assert_eq!(to_unescaped_string(&plain, &now), "02:02 <>");
}

#[test]
fn reminder_in_group_mentions_its_user() {
    let now = at(2007, 2, 2, 12, 30);
    let mut r = entry(at(2007, 2, 2, 13, 0), "call", false, None);
    assert_eq!(
        to_string_with_mention(&r, &now, 42),
        "[🔔](tg://user?id=42)\n13:00 <*call*\\>"
    );
    r.chat_id = -100;
    assert_eq!(format_reminder(&r, &now), "[🔔](tg://user?id=42)\n13:00 <*call*\\>");
    r.chat_id = -1_000_000_000_123;
    assert_eq!(format_reminder(&r, &now), "[🔔](tg://user?id=42)\n13:00 <*call*\\>");
    r.chat_id = 42;
    assert_eq!(format_reminder(&r, &now), "13:00 <*call*\\>");
    r.chat_id = -100;
    r.user_id = None;
    assert_eq!(format_reminder(&r, &now), "13:00 <*call*\\>");
}

#[test]
fn markdown_escape_marks_reserved_characters() {
    assert_eq!(markdown_escape("a.b-c!"), "a\\.b\\-c\\!");
    assert_eq!(markdown_escape("x\\y"), "x\\\\y");
}

#[test]
fn mentions_are_defused() {
    assert_eq!(escape_mentions("hi @bob and @al"), "hi @\u{200B}bob and @\u{200B}al");
    assert_eq!(escape_mentions("none"), "none");
}

#[test]
fn test_get_sorted_reminders() {
    let r1 = entry(at(2024, 1, 1, 1, 0), "1", false, None);
    let r2 = entry(at(2024, 1, 1, 2, 0), "2", false, None);
    let r3 = entry(at(2024, 1, 1, 3, 0), "3", false, None);
    let sorted = sort_reminders(vec![r1, r3, r2]);
    let times: Vec<_> = sorted.iter().map(|r| r.time).collect();
    assert_eq!(times, vec![at(2024, 1, 1, 1, 0), at(2024, 1, 1, 2, 0), at(2024, 1, 1, 3, 0)]);
}

#[test]
fn paused_reminders_come_last() {
    let a = entry(at(2024, 1, 1, 1, 0), "paused early", true, None);
    let b = entry(at(2024, 1, 2, 1, 0), "running late", false, None);
    let c = entry(at(2023, 12, 31, 1, 0), "running early", false, None);
    let sorted = sort_reminders(vec![a, b, c]);
    let descs: Vec<_> = sorted.iter().map(|r| r.desc.as_str()).collect();
    assert_eq!(descs, vec!["running early", "running late", "paused early"]);
}

#[test]
fn reminder_shows_its_pattern() {
    let now = at(2007, 2, 2, 12, 30);
    let mut r = entry(at(2007, 2, 3, 9, 5), "stand-up", false, Some(600));
    r.pattern_text = Some("mon-fri 9:05".to_owned());
    assert_eq!(to_unescaped_string(&r, &now), "03.02 09:05 <stand-up> [mon-fri 9:05] [!10m]");
    assert_eq!(
        to_string(&r, &now),
        "03\\.02 09:05 <*stand\\-up*\\> \\[mon\\-fri 9:05\\] \\[\\!10m\\]"
    );
    // An empty pattern text is not shown.
    r.pattern_text = Some(String::new());
    assert_eq!(to_unescaped_string(&r, &now), "03.02 09:05 <stand-up> [!10m]");
}
