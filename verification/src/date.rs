//! Moving dates and date-times by intervals.
use vstd::prelude::*;

use crate::calendar::{
    date_add_days, date_le, date_lt, datetime_add_secs, day_number, is_leap_year, last_date,
    lemma_day_number_order, lemma_day_number_range, lemma_shift_months_wf, shift_months,
    shift_years, spec_date_add_days, spec_datetime_add_secs, spec_normalise_day,
    spec_shift_months, spec_weekday, weekday, Date, DateTime, TimeOfDay,
};
use crate::collections::{numbers_contains, numbers_of};
use crate::serializers::{DateInterval, Interval};
use nonempty::NonEmpty;

verus! {

/// The `i32` that `months as i32` gives for a `u32`.
pub open spec fn months_as_i32(months: u32) -> int {
    if months <= i32::MAX { months as int } else { months - 0x1_0000_0000 }
}

/// `time` moved by `interval`: years and months first (a day past the end of a shorter
/// month moves back to its last day), then weeks, days, hours, minutes and seconds.
/// `None` where a date leaves `chrono`'s range or a count does not fit the arithmetic.
pub open spec fn spec_add_interval(time: DateTime, interval: Interval) -> Option<DateTime> {
    let years12 = interval.years * 12;
    let months = months_as_i32(interval.months);
    if !(i32::MIN <= years12 <= i32::MAX - 12) {
        None
    } else {
        match spec_shift_months(time.date, years12) {
            None => None,
            Some(d1) => if d1.month + months > i32::MAX {
                None
            } else {
                match spec_shift_months(d1, months) {
                    None => None,
                    Some(d2) => spec_add_secs_steps(
                        DateTime { date: d2, time: time.time },
                        interval,
                    ),
                }
            },
        }
    }
}

/// Adds the weeks, days, hours, minutes and seconds of an interval, one after another.
pub open spec fn spec_add_secs_steps(dt: DateTime, interval: Interval) -> Option<DateTime> {
    match spec_datetime_add_secs(dt, interval.weeks * 604800) {
        None => None,
        Some(a) => match spec_datetime_add_secs(a, interval.days * 86400) {
            None => None,
            Some(b) => match spec_datetime_add_secs(b, interval.hours * 3600) {
                None => None,
                Some(c) => match spec_datetime_add_secs(c, interval.minutes * 60) {
                    None => None,
                    Some(e) => spec_datetime_add_secs(e, interval.seconds as int),
                },
            },
        },
    }
}

pub open spec fn date_interval_as_interval(interval: DateInterval) -> Interval {
    Interval {
        years: interval.years,
        months: interval.months,
        weeks: interval.weeks,
        days: interval.days,
        hours: 0,
        minutes: 0,
        seconds: 0,
    }
}

/// `date` moved by a date interval, as `spec_add_interval` moves its midnight.
pub open spec fn spec_add_date_interval(date: Date, interval: DateInterval) -> Option<Date> {
    match spec_add_interval(
        DateTime { date, time: TimeOfDay { secs: 0 } },
        date_interval_as_interval(interval),
    ) {
        Some(dt) => Some(dt.date),
        None => None,
    }
}

/// The first date from `date` on, looking at most `fuel` days further, whose day of the
/// week (Monday is 0) is one of `weekdays`.
pub open spec fn spec_nearest_weekday(date: Date, weekdays: Seq<u32>, fuel: nat) -> Option<Date>
    decreases fuel,
{
    if weekdays.contains(spec_weekday(date) as u32) {
        Some(date)
    } else if fuel == 0 {
        None
    } else {
        match spec_date_add_days(date, 1) {
            Some(next) => spec_nearest_weekday(next, weekdays, (fuel - 1) as nat),
            None => None,
        }
    }
}

/// The day of the week `j` days after day `w0`.
pub open spec fn day_after(w0: nat, j: nat) -> u32 {
    ((w0 + j) % 7) as u32
}

/// The day moved back to the last day of the month where the month is shorter.
pub fn normalise_day(year: i32, month: u32, day: u32) -> (r: u32)
    ensures
        r == spec_normalise_day(year as int, month as int, day as int),
{
    if day <= 28 {
        day
    } else if month == 2 {
        28 + if is_leap_year(year) { 1 } else { 0 }
    } else if day == 31 && (month == 4 || month == 6 || month == 9 || month == 11) {
        30
    } else {
        day
    }
}

fn add_secs_steps(dt: &DateTime, interval: &Interval) -> (r: Option<DateTime>)
    requires
        dt.wf(),
    ensures
        r == spec_add_secs_steps(*dt, *interval),
        r matches Some(e) ==> e.wf(),
{
    let a = datetime_add_secs(dt, interval.weeks as i64 * 604800)?;
    let b = datetime_add_secs(&a, interval.days as i64 * 86400)?;
    let c = datetime_add_secs(&b, interval.hours as i64 * 3600)?;
    let e = datetime_add_secs(&c, interval.minutes as i64 * 60)?;
    datetime_add_secs(&e, interval.seconds as i64)
}

/// `time` moved by `interval`.
pub fn add_interval(time: &DateTime, interval: &Interval) -> (r: Option<DateTime>)
    requires
        time.wf(),
    ensures
        r == spec_add_interval(*time, *interval),
        r matches Some(e) ==> e.wf(),
{
    let years12: i64 = interval.years as i64 * 12;
    if !(i32::MIN as i64 <= years12 && years12 <= i32::MAX as i64 - 12) {
        return None;
    }
    let months: i32 = if interval.months <= 0x7fff_ffff {
        interval.months as i32
    } else {
        (interval.months as i64 - 0x1_0000_0000i64) as i32
    };
    let d1 = shift_years(&time.date, interval.years)?;
    proof {
        lemma_shift_months_wf(time.date, years12 as int);
    }
    if d1.month as i64 + months as i64 > i32::MAX as i64 {
        return None;
    }
    let d2 = shift_months(&d1, months)?;
    proof {
        lemma_shift_months_wf(d1, months as int);
    }
    add_secs_steps(&DateTime { date: d2, time: time.time }, interval)
}

/// `date` moved by a date interval.
pub fn add_date_interval(date: &Date, interval: &DateInterval) -> (r: Option<Date>)
    requires
        date.wf(),
    ensures
        r == spec_add_date_interval(*date, *interval),
        r matches Some(d) ==> d.wf(),
{
    let full = Interval {
        years: interval.years,
        months: interval.months,
        weeks: interval.weeks,
        days: interval.days,
        hours: 0,
        minutes: 0,
        seconds: 0,
    };
    match add_interval(&DateTime { date: *date, time: TimeOfDay { secs: 0 } }, &full) {
        Some(dt) => Some(dt.date),
        None => None,
    }
}

/// The first date from `date` on whose day of the week (Monday is 0) is one of `weekdays`.
pub fn find_nearest_weekday(date: &Date, weekdays: &NonEmpty<u32>) -> (r: Option<Date>)
    requires
        date.wf(),
        exists|w: u32| w < 7 && numbers_of(*weekdays).contains(w),
    ensures
        r == spec_nearest_weekday(*date, numbers_of(*weekdays), 6),
        r matches Some(d) ==> d.wf() && date_le(*date, d),
        // The result is the earliest date from `date` on whose day of the week is one of
        // `weekdays`; there is one wherever a week's days are left before `chrono`'s last.
        r matches Some(d) ==> numbers_of(*weekdays).contains(spec_weekday(d) as u32) && forall|x: Date|
            x.wf() && date_le(*date, x) && date_lt(x, d) ==> !numbers_of(*weekdays).contains(
                #[trigger] spec_weekday(x) as u32,
            ),
        day_number(*date) + 6 <= day_number(last_date()) ==> r is Some,
{
    let ghost ws = numbers_of(*weekdays);
    let w0e = weekday(date);
    let ghost w0: nat = w0e as nat;
    let ghost target = choose|w: u32| w < 7 && ws.contains(w);
    let mut d = *date;
    let mut k: u32 = 0;
    loop
        invariant
            d.wf(),
            date.wf(),
            k <= 6,
            w0 < 7,
            ws == numbers_of(*weekdays),
            target < 7 && ws.contains(target),
            spec_weekday(d) == (w0 + k) % 7,
            forall|j: nat| j < k ==> !ws.contains(#[trigger] day_after(w0, j)),
            spec_nearest_weekday(*date, ws, 6) == spec_nearest_weekday(d, ws, (6 - k) as nat),
            date_le(*date, d),
            day_number(d) == day_number(*date) + k,
            w0 == spec_weekday(*date),
        decreases 6 - k,
    {
        let wd = weekday(&d);
        if numbers_contains(weekdays, wd) {
            proof {
                assert forall|x: Date|
                    x.wf() && date_le(*date, x) && date_lt(x, d) implies !ws.contains(
                    #[trigger] spec_weekday(x) as u32,
                ) by {
                    lemma_day_number_order(*date, x);
                    lemma_day_number_order(x, d);
                    let j = day_number(x) - day_number(*date);
                    assert(0 <= j < k);
                    vstd::arithmetic::div_mod::lemma_add_mod_noop(day_number(*date) + 5, j, 7);
                    vstd::arithmetic::div_mod::lemma_small_mod(j as nat, 7);
                    assert(spec_weekday(x) as u32 == day_after(w0, j as nat));
                }
            }
            return Some(d);
        }
        assert(day_after(w0, k as nat) == wd);
        if k == 6 {
            proof {
                let j = lemma_day_reached(w0, target);
                assert(!ws.contains(day_after(w0, j)));
            }
        }
        proof {
            lemma_day_number_range(d);
        }
        match date_add_days(&d, 1) {
            None => {
                return None;
            },
            Some(n) => {
                proof {
                    lemma_mod_step(w0, k as nat);
                }
                d = n;
                k = k + 1;
            },
        }
    }
}

pub proof fn lemma_mod_step(w0: nat, k: nat)
    ensures
        ((w0 + k) % 7 + 1) % 7 == (w0 + k + 1) % 7,
{
}

/// Every day of the week comes within seven days of any other.
proof fn lemma_day_reached(w0: nat, target: u32) -> (j: nat)
    requires
        w0 < 7,
        target < 7,
    ensures
        j < 7,
        day_after(w0, j) == target,
{
    ((target + 7 - w0) % 7) as nat
}

} // verus!
