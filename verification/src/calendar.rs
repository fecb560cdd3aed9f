//! Calendar dates, times of day and date-times, as plain values.
//!
//! Dates are those of the proleptic Gregorian calendar within the range that
//! `chrono::NaiveDate` can hold; arithmetic on whole days and the day of the week
//! are computed by `chrono`, month shifts by `chronoutil`.
use chrono::Datelike;
use vstd::prelude::*;

verus! {

/// The smallest year a `chrono::NaiveDate` can hold.
pub const MIN_YEAR: i32 = -262143;

/// The largest year a `chrono::NaiveDate` can hold.
pub const MAX_YEAR: i32 = 262142;

pub const SECS_PER_DAY: u32 = 86400;

/// A calendar date (year, month 1-12, day 1-31).
#[derive(Clone, Copy, PartialEq, Eq, Structural, Debug)]
pub struct Date {
    pub year: i32,
    pub month: u32,
    pub day: u32,
}

/// A time of day, as the number of seconds since midnight.
#[derive(Clone, Copy, PartialEq, Eq, Structural, Debug)]
pub struct TimeOfDay {
    pub secs: u32,
}

/// A date with a time of day.
#[derive(Clone, Copy, PartialEq, Eq, Structural, Debug)]
pub struct DateTime {
    pub date: Date,
    pub time: TimeOfDay,
}

// ---------------------------------------------------------------------------
// specification

pub open spec fn spec_is_leap_year(year: int) -> bool {
    year % 4 == 0 && (year % 100 != 0 || year % 400 == 0)
}

pub open spec fn spec_days_in_month(year: int, month: int) -> int {
    if month == 2 {
        if spec_is_leap_year(year) { 29 } else { 28 }
    } else if month == 4 || month == 6 || month == 9 || month == 11 {
        30
    } else {
        31
    }
}

pub open spec fn spec_days_in_year(year: int) -> int {
    if spec_is_leap_year(year) { 366 } else { 365 }
}

/// Whether (year, month, day) names a date that `chrono::NaiveDate` can hold.
pub open spec fn valid_ymd(year: int, month: int, day: int) -> bool {
    &&& MIN_YEAR <= year <= MAX_YEAR
    &&& 1 <= month <= 12
    &&& 1 <= day <= spec_days_in_month(year, month)
}

impl Date {
    pub open spec fn wf(self) -> bool {
        valid_ymd(self.year as int, self.month as int, self.day as int)
    }
}

impl TimeOfDay {
    pub open spec fn wf(self) -> bool {
        self.secs < SECS_PER_DAY
    }
}

impl DateTime {
    pub open spec fn wf(self) -> bool {
        self.date.wf() && self.time.wf()
    }
}

pub open spec fn date_lt(a: Date, b: Date) -> bool {
    ||| a.year < b.year
    ||| a.year == b.year && a.month < b.month
    ||| a.year == b.year && a.month == b.month && a.day < b.day
}

pub open spec fn date_le(a: Date, b: Date) -> bool {
    date_lt(a, b) || a == b
}

pub open spec fn datetime_lt(a: DateTime, b: DateTime) -> bool {
    date_lt(a.date, b.date) || (a.date == b.date && a.time.secs < b.time.secs)
}

pub open spec fn datetime_le(a: DateTime, b: DateTime) -> bool {
    datetime_lt(a, b) || a == b
}

/// A number that orders the valid dates as the calendar does.
pub open spec fn date_code(d: Date) -> int {
    (d.year - MIN_YEAR) * 512 + d.month * 32 + d.day
}

/// The number of leap years from year 0 up to `year` (not counting `year`; negative for
/// years before 0): every fourth, but not every hundredth, but every four hundredth.
pub open spec fn leaps_before(year: int) -> int {
    (year - 1) / 4 - (year - 1) / 100 + (year - 1) / 400 + 1
}

/// The number of days from 1 January of year 0 to 1 January of `year` (negative before
/// it), in the proleptic Gregorian calendar.
pub open spec fn days_before_year(year: int) -> int {
    365 * year + leaps_before(year)
}

/// The number of days of `year` before the first of `month`.
pub open spec fn days_before_month(year: int, month: int) -> int {
    let leap: int = if month > 2 && spec_is_leap_year(year) { 1 } else { 0 };
    leap + if month <= 1 {
        0int
    } else if month == 2 {
        31
    } else if month == 3 {
        59
    } else if month == 4 {
        90
    } else if month == 5 {
        120
    } else if month == 6 {
        151
    } else if month == 7 {
        181
    } else if month == 8 {
        212
    } else if month == 9 {
        243
    } else if month == 10 {
        273
    } else if month == 11 {
        304
    } else {
        334
    }
}

/// The number of a day: days since 1 January of year 0.
pub open spec fn day_number(d: Date) -> int {
    days_before_year(d.year as int) + days_before_month(d.year as int, d.month as int) + d.day - 1
}

/// The first and the last date `chrono` can hold.
pub open spec fn first_date() -> Date {
    Date { year: MIN_YEAR, month: 1, day: 1 }
}

pub open spec fn last_date() -> Date {
    Date { year: MAX_YEAR, month: 12, day: 31 }
}

/// The day of the week of a date, counted from Monday (0) to Sunday (6): 1 January of
/// year 0 was a Saturday.
pub open spec fn spec_weekday(d: Date) -> nat {
    ((day_number(d) + 5) % 7) as nat
}

/// The date `days` days after `d`, as `chrono` computes it (`None` outside its range).
pub uninterp spec fn spec_date_add_days(d: Date, days: int) -> Option<Date>;

/// Division that rounds towards zero, as Rust's `/` on integers does.
pub open spec fn trunc_div(a: int, b: int) -> int {
    if a >= 0 { a / b } else { -((-a) / b) }
}

/// The remainder that goes with `trunc_div`, as Rust's `%` on integers gives it.
pub open spec fn trunc_rem(a: int, b: int) -> int {
    a - b * trunc_div(a, b)
}

/// Moves `day` back to the last day of the month where the month is shorter.
pub open spec fn spec_normalise_day(year: int, month: int, day: int) -> int {
    if day <= 28 {
        day
    } else if month == 2 {
        28 + (if spec_is_leap_year(year) { 1int } else { 0int })
    } else if day == 31 && (month == 4 || month == 6 || month == 9 || month == 11) {
        30
    } else {
        day
    }
}

/// The date `months` months after `d`, with a day past the month's end moved back to
/// the month's last day, as `chronoutil::delta::shift_months_opt` computes it.
pub open spec fn spec_shift_months(d: Date, months: int) -> Option<Date> {
    let t = d.month + months;
    let year0 = d.year + trunc_div(t, 12);
    let month0 = trunc_rem(t, 12);
    let year = if month0 < 1 { year0 - 1 } else { year0 };
    let month = if month0 < 1 { month0 + 12 } else { month0 };
    let day = spec_normalise_day(year, month, d.day as int);
    if MIN_YEAR <= year <= MAX_YEAR {
        Some(Date { year: year as i32, month: month as u32, day: day as u32 })
    } else {
        None
    }
}

/// Seconds since midnight of an hour, minute and second.
pub open spec fn hms_secs(hour: int, minute: int, second: int) -> int {
    hour * 3600 + minute * 60 + second
}

/// A time of day moved by `secs` seconds, wrapping around midnight.
pub open spec fn spec_time_add_wrapping(t: TimeOfDay, secs: int) -> TimeOfDay {
    TimeOfDay { secs: ((t.secs + secs) % (SECS_PER_DAY as int)) as u32 }
}

/// A date-time moved by `secs` seconds (`None` where the date leaves `chrono`'s range).
pub open spec fn spec_datetime_add_secs(dt: DateTime, secs: int) -> Option<DateTime> {
    let total = dt.time.secs + secs;
    match spec_date_add_days(dt.date, total / (SECS_PER_DAY as int)) {
        Some(d) => Some(
            DateTime { date: d, time: TimeOfDay { secs: (total % (SECS_PER_DAY as int)) as u32 } },
        ),
        None => None,
    }
}

// ---------------------------------------------------------------------------
// lemmas

pub proof fn lemma_date_code_order(a: Date, b: Date)
    requires
        a.wf(),
        b.wf(),
    ensures
        date_lt(a, b) <==> date_code(a) < date_code(b),
        a == b <==> date_code(a) == date_code(b),
{
    assert(a.day <= 31 && b.day <= 31);
}

pub proof fn lemma_date_order_total(a: Date, b: Date)
    ensures
        date_lt(a, b) || a == b || date_lt(b, a),
        !(date_lt(a, b) && date_lt(b, a)),
        !date_lt(a, a),
{
}

/// Counting the multiples of `k` up to `y` rather than up to `y - 1` adds one where `y` is one.
proof fn lemma_floor_step(y: int, k: int)
    requires
        k > 0,
    ensures
        y / k - (y - 1) / k == (if y % k == 0 { 1int } else { 0int }),
{
    let q = (y - 1) / k;
    let r = (y - 1) % k;
    vstd::arithmetic::div_mod::lemma_fundamental_div_mod(y - 1, k);
    vstd::arithmetic::div_mod::lemma_mod_bound(y - 1, k);
    if r == k - 1 {
        assert(y == (q + 1) * k + 0) by (nonlinear_arith)
            requires
                y - 1 == k * q + r,
                r == k - 1,
        ;
        vstd::arithmetic::div_mod::lemma_fundamental_div_mod_converse(y, k, q + 1, 0);
    } else {
        assert(y == q * k + (r + 1)) by (nonlinear_arith)
            requires
                y - 1 == k * q + r,
        ;
        vstd::arithmetic::div_mod::lemma_fundamental_div_mod_converse(y, k, q, r + 1);
    }
}

/// A multiple of 400 is one of 100, and a multiple of 100 one of 4.
proof fn lemma_multiples(y: int)
    ensures
        y % 400 == 0 ==> y % 100 == 0,
        y % 100 == 0 ==> y % 4 == 0,
{
    if y % 400 == 0 {
        vstd::arithmetic::div_mod::lemma_fundamental_div_mod(y, 400);
        let q = y / 400;
        assert(y == (4 * q) * 100 + 0) by (nonlinear_arith)
            requires
                y == 400 * q + 0,
        ;
        vstd::arithmetic::div_mod::lemma_fundamental_div_mod_converse(y, 100, 4 * q, 0);
    }
    if y % 100 == 0 {
        vstd::arithmetic::div_mod::lemma_fundamental_div_mod(y, 100);
        let q = y / 100;
        assert(y == (25 * q) * 4 + 0) by (nonlinear_arith)
            requires
                y == 100 * q + 0,
        ;
        vstd::arithmetic::div_mod::lemma_fundamental_div_mod_converse(y, 4, 25 * q, 0);
    }
}

/// One year's days after the first of a year comes the first of the next.
pub proof fn lemma_days_before_year_step(y: int)
    ensures
        days_before_year(y + 1) == days_before_year(y) + spec_days_in_year(y),
{
    lemma_floor_step(y, 4);
    lemma_floor_step(y, 100);
    lemma_floor_step(y, 400);
    lemma_multiples(y);
}

/// Later years start later, by at least a common year's days a year.
pub proof fn lemma_days_before_year_mono(y1: int, y2: int)
    requires
        y1 <= y2,
    ensures
        days_before_year(y1) + 365 * (y2 - y1) <= days_before_year(y2),
    decreases y2 - y1,
{
    if y1 < y2 {
        lemma_days_before_year_mono(y1, y2 - 1);
        lemma_days_before_year_step(y2 - 1);
    }
}

/// The days before a month and the month's own days make up the days before the next
/// month, or the whole year after December; an earlier month ends before a later starts.
pub proof fn lemma_month_days(y: int, m1: int, m2: int)
    requires
        1 <= m1 <= 12,
        1 <= m2 <= 12,
    ensures
        0 <= days_before_month(y, m1),
        days_before_month(y, m1) + spec_days_in_month(y, m1) <= spec_days_in_year(y),
        m1 < m2 ==> days_before_month(y, m1) + spec_days_in_month(y, m1) <= days_before_month(y, m2),
{
}

/// A date's number falls within its year's.
pub proof fn lemma_day_number_in_year(d: Date)
    requires
        d.wf(),
    ensures
        days_before_year(d.year as int) <= day_number(d),
        day_number(d) < days_before_year(d.year as int) + spec_days_in_year(d.year as int),
        day_number(d) < days_before_year(d.year + 1),
{
    lemma_month_days(d.year as int, d.month as int, d.month as int);
    lemma_days_before_year_step(d.year as int);
}

/// Day numbers order the dates as the calendar does, and tell them apart.
pub proof fn lemma_day_number_order(a: Date, b: Date)
    requires
        a.wf(),
        b.wf(),
    ensures
        date_lt(a, b) <==> day_number(a) < day_number(b),
        a == b <==> day_number(a) == day_number(b),
{
    lemma_day_number_in_year(a);
    lemma_day_number_in_year(b);
    if a.year < b.year {
        lemma_days_before_year_mono(a.year + 1, b.year as int);
    } else if b.year < a.year {
        lemma_days_before_year_mono(b.year + 1, a.year as int);
    } else {
        lemma_month_days(a.year as int, a.month as int, b.month as int);
        lemma_month_days(a.year as int, b.month as int, a.month as int);
    }
}

/// Every date `chrono` holds lies between its first and its last, and a date two years or
/// more before the last has more than a year's days left after it.
pub proof fn lemma_day_number_range(d: Date)
    requires
        d.wf(),
    ensures
        day_number(first_date()) <= day_number(d) <= day_number(last_date()),
        d.year <= MAX_YEAR - 2 ==> day_number(d) + 366 <= day_number(last_date()),
{
    lemma_day_number_order(first_date(), d);
    lemma_day_number_order(d, last_date());
    lemma_day_number_in_year(d);
    if d.year <= MAX_YEAR - 2 {
        lemma_days_before_year_mono(d.year + 1, MAX_YEAR - 1);
        lemma_days_before_year_step(MAX_YEAR - 1);
    }
}

pub proof fn lemma_shift_months_wf(d: Date, months: int)
    requires
        d.wf(),
        spec_shift_months(d, months) is Some,
    ensures
        spec_shift_months(d, months).unwrap().wf(),
{
    let t = d.month + months;
    let m0 = trunc_rem(t, 12);
    assert(-12 < m0 < 12) by {
        if t >= 0 {
            assert(trunc_div(t, 12) == t / 12);
        } else {
            assert(trunc_div(t, 12) == -((-t) / 12));
        }
    }
}

// ---------------------------------------------------------------------------
// executable functions

pub fn date_lt_exec(a: &Date, b: &Date) -> (r: bool)
    ensures
        r == date_lt(*a, *b),
{
    a.year < b.year || (a.year == b.year && a.month < b.month) || (a.year == b.year && a.month
        == b.month && a.day < b.day)
}

pub fn date_le_exec(a: &Date, b: &Date) -> (r: bool)
    ensures
        r == date_le(*a, *b),
{
    date_lt_exec(a, b) || (a.year == b.year && a.month == b.month && a.day == b.day)
}

pub fn datetime_lt_exec(a: &DateTime, b: &DateTime) -> (r: bool)
    ensures
        r == datetime_lt(*a, *b),
{
    date_lt_exec(&a.date, &b.date) || (a.date == b.date && a.time.secs < b.time.secs)
}

/// `chronoutil::is_leap_year`.
#[verifier::external_body]
pub(crate) fn is_leap_year(year: i32) -> (r: bool)
    ensures
        r == spec_is_leap_year(year as int),
{
    chronoutil::is_leap_year(year)
}

pub fn days_in_month(year: i32, month: u32) -> (r: u32)
    ensures
        r == spec_days_in_month(year as int, month as int),
{
    if month == 2 {
        if is_leap_year(year) { 29 } else { 28 }
    } else if month == 4 || month == 6 || month == 9 || month == 11 {
        30
    } else {
        31
    }
}

pub fn days_in_year(year: i32) -> (r: u32)
    ensures
        r == spec_days_in_year(year as int),
{
    if is_leap_year(year) { 366 } else { 365 }
}

/// `chrono::NaiveDate::from_ymd_opt`: the date, where (year, month, day) names one in range.
#[verifier::external_body]
pub(crate) fn from_ymd_opt(year: i32, month: u32, day: u32) -> (r: Option<Date>)
    ensures
        r is Some <==> valid_ymd(year as int, month as int, day as int),
        r matches Some(d) ==> d == (Date { year, month, day }),
{
    chrono::NaiveDate::from_ymd_opt(year, month, day).map(|_| Date { year, month, day })
}

/// `chrono::NaiveDate::checked_add_signed` with a whole number of days: the date `days` days
/// later (earlier where negative), or `None` where it leaves `chrono`'s range.
/// Beside naming the result, the contract claims what the calendar gives: the result is a
/// valid date whose day number is `days` more, there is one exactly where that number
/// is within `chrono`'s first and last date, no days leave the date as it is, a positive
/// number of days reaches a later date, and the day of the week moves on by the number
/// of days.
#[verifier::external_body]
pub(crate) fn date_add_days(d: &Date, days: i64) -> (r: Option<Date>)
    requires
        d.wf(),
    ensures
        r == spec_date_add_days(*d, days as int),
        r matches Some(e) ==> day_number(e) == day_number(*d) + days,
        r is Some <==> day_number(first_date()) <= day_number(*d) + days <= day_number(
            last_date(),
        ),
        r matches Some(e) ==> e.wf(),
        days == 0 ==> r == Some(*d),
        days > 0 && r is Some ==> date_lt(*d, r.unwrap()),
        r matches Some(e) ==> spec_weekday(e) == (spec_weekday(*d) + days) % 7,
{
    chrono::TimeDelta::try_days(days).and_then(|delta| chrono::NaiveDate::from_ymd_opt(d.year, d.month, d.day).unwrap().checked_add_signed(delta)).map(
        |n| Date { year: n.year(), month: n.month(), day: n.day() },
    )
}

/// `chrono::NaiveDate::weekday`, counted from Monday (0).
#[verifier::external_body]
pub(crate) fn weekday(d: &Date) -> (r: u32)
    requires
        d.wf(),
    ensures
        r == spec_weekday(*d),
        r < 7,
{
    chrono::NaiveDate::from_ymd_opt(d.year, d.month, d.day).unwrap().weekday().num_days_from_monday()
}

/// `chronoutil::delta::shift_months_opt`: the date `months` months later, with the day moved back
/// to the end of a shorter month.
#[verifier::external_body]
pub(crate) fn shift_months(d: &Date, months: i32) -> (r: Option<Date>)
    requires
        d.wf(),
        d.month + months <= i32::MAX,
    ensures
        r == spec_shift_months(*d, months as int),
{
    chronoutil::delta::shift_months_opt(chrono::NaiveDate::from_ymd_opt(d.year, d.month, d.day).unwrap(), months).map(
        |n| Date { year: n.year(), month: n.month(), day: n.day() },
    )
}

/// `chronoutil::delta::shift_years_opt`: the date `years` years later, as twelve months each.
#[verifier::external_body]
pub(crate) fn shift_years(d: &Date, years: i32) -> (r: Option<Date>)
    requires
        d.wf(),
        i32::MIN <= years * 12 <= i32::MAX - 12,
    ensures
        r == spec_shift_months(*d, years * 12),
{
    chronoutil::delta::shift_years_opt(chrono::NaiveDate::from_ymd_opt(d.year, d.month, d.day).unwrap(), years).map(
        |n| Date { year: n.year(), month: n.month(), day: n.day() },
    )
}

/// `chrono::NaiveTime::from_hms_opt` on whole seconds.
pub fn from_hms_opt(hour: u32, minute: u32, second: u32) -> (r: Option<TimeOfDay>)
    ensures
        r is Some <==> hour < 24 && minute < 60 && second < 60,
        r matches Some(t) ==> t.secs == hms_secs(hour as int, minute as int, second as int)
            && t.wf(),
{
    if hour < 24 && minute < 60 && second < 60 {
        Some(TimeOfDay { secs: hour * 3600 + minute * 60 + second })
    } else {
        None
    }
}

/// A time of day moved by `secs` seconds, wrapping around midnight, as adding a
/// duration to a `chrono::NaiveTime` does.
pub fn time_add_wrapping(t: TimeOfDay, secs: i64) -> (r: TimeOfDay)
    requires
        t.wf(),
        i64::MIN + SECS_PER_DAY <= secs <= i64::MAX - SECS_PER_DAY,
    ensures
        r == spec_time_add_wrapping(t, secs as int),
        r.wf(),
{
    let total: i64 = t.secs as i64 + secs;
    let r = total % 86400;
    let s: i64 = if r < 0 { r + 86400 } else { r };
    assert(s == total as int % 86400);
    TimeOfDay { secs: s as u32 }
}

/// A date-time moved by `secs` seconds, or `None` where the date leaves `chrono`'s range;
/// adding a duration to a `chrono::NaiveDateTime` does the same.
pub fn datetime_add_secs(dt: &DateTime, secs: i64) -> (r: Option<DateTime>)
    requires
        dt.wf(),
        i64::MIN + SECS_PER_DAY <= secs <= i64::MAX - SECS_PER_DAY,
    ensures
        r == spec_datetime_add_secs(*dt, secs as int),
        r matches Some(e) ==> e.wf(),
{
    let total: i64 = dt.time.secs as i64 + secs;
    let rem = total % 86400;
    let s: i64 = if rem < 0 { rem + 86400 } else { rem };
    let q: i64 = if rem < 0 { total / 86400 - 1 } else { total / 86400 };
    assert(s == total as int % 86400 && q == total as int / 86400);
    match date_add_days(&dt.date, q) {
        Some(d) => Some(DateTime { date: d, time: TimeOfDay { secs: s as u32 } }),
        None => None,
    }
}


impl Date {
    /// Whether the date is one `chrono` can hold.
    pub fn is_valid(&self) -> (r: bool)
        ensures
            r == self.wf(),
    {
        MIN_YEAR <= self.year && self.year <= MAX_YEAR && 1 <= self.month && self.month <= 12
            && 1 <= self.day && self.day <= days_in_month(self.year, self.month)
    }
}

impl DateTime {
    /// Whether the date is one `chrono` can hold and the time is within a day.
    pub fn is_valid(&self) -> (r: bool)
        ensures
            r == self.wf(),
    {
        self.date.is_valid() && self.time.secs < SECS_PER_DAY
    }
}

} // verus!
