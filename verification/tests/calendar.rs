use remindee_bot::calendar::{days_in_month, days_in_year, from_hms_opt, Date, DateTime, TimeOfDay};
use remindee_bot::date::{add_date_interval, add_interval, find_nearest_weekday, normalise_day};
use remindee_bot::grammar::{DateInterval as HoleyDateInterval, HoleyDate};
use remindee_bot::parsers::starts_with_past_full_date;
use remindee_bot::serializers::{fill_date_holes, DateInterval, Interval};

fn d(year: i32, month: u32, day: u32) -> Date {
    Date { year, month, day }
}

#[test]
fn leap_years_and_month_lengths() {
    assert_eq!(days_in_year(2000), 366);
    assert_eq!(days_in_year(1900), 365);
    assert_eq!(days_in_month(2008, 2), 29);
    assert_eq!(days_in_month(2007, 2), 28);
    assert_eq!(days_in_month(2007, 4), 30);
    assert_eq!(days_in_year(2008), 366);
    assert_eq!(normalise_day(2007, 2, 31), 28);
    assert_eq!(normalise_day(2008, 2, 30), 29);
    assert_eq!(normalise_day(2007, 6, 31), 30);
    assert_eq!(normalise_day(2007, 7, 31), 31);
}

#[test]
fn dates_from_parts() {
    assert_eq!(from_hms_opt(23, 59, 59).map(|t| t.secs), Some(86399));
    assert!(from_hms_opt(24, 0, 0).is_none());
}

#[test]
fn moving_dates() {
    let day = |days: u32| DateInterval { years: 0, months: 0, weeks: 0, days };
    let month = |months: u32| DateInterval { years: 0, months, weeks: 0, days: 0 };
    assert_eq!(add_date_interval(&d(2007, 2, 28), &day(1)), Some(d(2007, 3, 1)));
    assert_eq!(add_date_interval(&d(2007, 12, 31), &day(1)), Some(d(2008, 1, 1)));
    assert_eq!(add_date_interval(&d(2007, 1, 31), &month(1)), Some(d(2007, 2, 28)));
    assert_eq!(add_date_interval(&d(2007, 11, 15), &month(3)), Some(d(2008, 2, 15)));
    let year = DateInterval { years: 1, months: 0, weeks: 0, days: 0 };
    assert_eq!(add_date_interval(&d(2008, 2, 29), &year), Some(d(2009, 2, 28)));
}

#[test]
fn intervals_move_times() {
    let t = DateTime { date: d(2007, 1, 31), time: TimeOfDay { secs: 23 * 3600 } };
    let i = Interval { years: 1, months: 1, weeks: 0, days: 1, hours: 2, minutes: 0, seconds: 5 };
    let r = add_interval(&t, &i).unwrap();
    assert_eq!(r.date, d(2008, 3, 2));
    assert_eq!(r.time.secs, 3600 + 5);
    let di = DateInterval { years: 0, months: 0, weeks: 2, days: 3 };
    assert_eq!(add_date_interval(&d(2007, 2, 2), &di), Some(d(2007, 2, 19)));
}

#[test]
fn nearest_weekday_is_found() {
    let weekdays = nonempty::NonEmpty::from_vec(vec![0u32, 3]).unwrap();
    assert_eq!(find_nearest_weekday(&d(2007, 2, 2), &weekdays), Some(d(2007, 2, 5)));
    assert_eq!(find_nearest_weekday(&d(2007, 2, 5), &weekdays), Some(d(2007, 2, 5)));
}

#[test]
fn holes_are_filled_from_the_lower_bound() {
    let today = d(2007, 2, 2);
    let day_only = HoleyDate { year: None, month: None, day: Some(1) };
    assert_eq!(fill_date_holes(&day_only, &today), Some(d(2007, 3, 1)));
    let month_day = HoleyDate { year: None, month: Some(1), day: Some(2) };
    assert_eq!(fill_date_holes(&month_day, &today), Some(d(2008, 1, 2)));
    let full = HoleyDate { year: Some(2000), month: Some(10), day: Some(10) };
    assert_eq!(fill_date_holes(&full, &today), Some(d(2000, 10, 10)));
    let _ = HoleyDateInterval { years: 0, months: 0, weeks: 0, days: 1 };
}

#[test]
fn full_dates_in_the_past_are_told() {
    assert!(!starts_with_past_full_date("10.10 ff", &d(2007, 2, 2)));
    assert!(starts_with_past_full_date("1.2.2007\tff", &d(2007, 2, 2)));
    assert!(starts_with_past_full_date("  10.10.2000 ff", &d(2007, 2, 2)));
    assert!(!starts_with_past_full_date("10.10.2010 ff", &d(2007, 2, 2)));
    assert!(!starts_with_past_full_date("10:00 ff", &d(2007, 2, 2)));
}

#[test]
fn filled_dates_are_never_before_the_bound() {
    let end_of_january = d(2023, 1, 31);
    let first = HoleyDate { year: None, month: None, day: Some(1) };
    assert_eq!(fill_date_holes(&first, &end_of_january), Some(d(2023, 2, 1)));
    let none = HoleyDate { year: None, month: None, day: None };
    assert_eq!(fill_date_holes(&none, &end_of_january), Some(end_of_january));
    // The 31st of April does not exist.
    let april = d(2023, 4, 10);
    let thirty_first = HoleyDate { year: None, month: None, day: Some(31) };
    assert_eq!(fill_date_holes(&thirty_first, &april), None);
    // A month already past this year moves on by that year's days (into a leap year,
    // that ends a day short).
    let march = HoleyDate { year: None, month: Some(3), day: None };
    assert_eq!(fill_date_holes(&march, &d(2023, 5, 20)), Some(d(2024, 3, 19)));
}

#[test]
fn nearest_weekday_is_the_earliest() {
    // 2 February 2007 was a Friday; Sunday (6) comes two days later.
    let sunday = nonempty::NonEmpty::new(6u32);
    assert_eq!(find_nearest_weekday(&d(2007, 2, 2), &sunday), Some(d(2007, 2, 4)));
    // 1 January 2024 was a Monday.
    let monday = nonempty::NonEmpty::new(0u32);
    assert_eq!(find_nearest_weekday(&d(2024, 1, 1), &monday), Some(d(2024, 1, 1)));
    assert_eq!(find_nearest_weekday(&d(2024, 1, 2), &monday), Some(d(2024, 1, 8)));
}
