//! Reminder patterns as they are stored: dates filled in, and the computation of
//! the next time a reminder is due.
use vstd::prelude::*;

use crate::calendar::{
    date_add_days, date_code, date_le, date_le_exec, date_lt, date_lt_exec, datetime_lt, datetime_lt_exec,
    days_in_month, days_in_year, from_hms_opt, from_ymd_opt, hms_secs, lemma_date_code_order,
    lemma_day_number_in_year, lemma_day_number_order, lemma_day_number_range, MAX_YEAR,
    spec_date_add_days, spec_days_in_month, spec_days_in_year, spec_time_add_wrapping,
    time_add_wrapping, valid_ymd, Date, DateTime, TimeOfDay, SECS_PER_DAY,
};
use crate::collections::{date_patterns_of, dates_first, dates_into_vec, numbers_from_vec, numbers_of};
use crate::date::{
    add_date_interval, add_interval, find_nearest_weekday, spec_add_date_interval,
    spec_add_interval, spec_nearest_weekday,
};
use crate::grammar;
use crate::zone::{local_time, spec_local_time};

verus! {

#[derive(Clone, Copy, PartialEq, Eq, Structural, Debug)]
pub struct Interval {
    pub years: i32,
    pub months: u32,
    pub weeks: u32,
    pub days: u32,
    pub hours: u32,
    pub minutes: u32,
    pub seconds: u32,
}

/// A set of days of the week, one bit per day from Monday (lowest) to Sunday.
#[derive(Clone, Copy, PartialEq, Eq, Structural, Debug)]
pub struct Weekdays {
    pub bits: u8,
}

#[derive(Clone, Copy, PartialEq, Eq, Structural, Debug)]
pub struct DateInterval {
    pub years: i32,
    pub months: u32,
    pub weeks: u32,
    pub days: u32,
}

#[derive(Clone, Copy, PartialEq, Eq, Structural, Debug)]
pub enum DateDivisor {
    Weekdays(Weekdays),
    Interval(DateInterval),
}

#[derive(Clone, Copy, PartialEq, Eq, Structural, Debug)]
pub struct DateRange {
    pub from: Date,
    pub until: Option<Date>,
    pub date_divisor: DateDivisor,
}

#[derive(Clone, Copy, PartialEq, Eq, Structural, Debug)]
pub enum DatePattern {
    Point(Date),
    Range(DateRange),
}

#[derive(Clone, Copy, PartialEq, Eq, Structural, Debug)]
pub struct TimeInterval {
    pub hours: u32,
    pub minutes: u32,
    pub seconds: u32,
}

#[derive(Clone, Copy, PartialEq, Eq, Structural, Debug)]
pub struct TimeRange {
    pub from: Option<TimeOfDay>,
    pub until: Option<TimeOfDay>,
    pub interval: TimeInterval,
}

#[derive(Clone, Copy, PartialEq, Eq, Structural, Debug)]
pub enum TimePattern {
    Point(TimeOfDay),
    Range(TimeRange),
}

#[derive(Clone, Debug)]
pub struct Recurrence {
    pub dates_patterns: Vec<DatePattern>,
    pub time_patterns: Vec<TimePattern>,
}

#[derive(Clone, Copy, PartialEq, Eq, Structural, Debug)]
pub struct Countdown {
    pub duration: Interval,
    pub used: bool,
}

#[derive(Clone, Copy, PartialEq, Eq, Structural, Debug)]
pub struct Period {
    pub duration: Interval,
}

#[derive(Clone, Debug)]
pub enum Pattern {
    Recurrence(Recurrence),
    Countdown(Countdown),
    Period(Period),
}

// ---------------------------------------------------------------------------
// well-formedness

/// The days of the week as numbers, Monday (0) to Sunday (6).
pub open spec fn week_numbers() -> Seq<u32> {
    Seq::new(7, |i: int| i as u32)
}

pub proof fn lemma_prepend_empty<T>(o: Option<Seq<T>>)
    ensures
        prepend_opt(Seq::<T>::empty(), o) == o,
{
    if let Some(s) = o {
        assert(Seq::<T>::empty() + s =~= s);
    }
}

impl Weekdays {
    pub open spec fn has(self, i: nat) -> bool {
        crate::grammar::bits_has(self.bits, i)
    }

    pub open spec fn has_fn(self) -> spec_fn(u32) -> bool {
        |i: u32| self.has(i as nat)
    }

    /// The days of the set, as numbers from Monday (0), in order.
    pub open spec fn day_numbers(self) -> Seq<u32> {
        week_numbers().filter(self.has_fn())
    }
}

impl TimeInterval {
    pub open spec fn total_secs(self) -> int {
        hms_secs(self.hours as int, self.minutes as int, self.seconds as int)
    }
}

impl DatePattern {
    pub open spec fn wf(self) -> bool {
        match self {
            DatePattern::Point(d) => d.wf(),
            DatePattern::Range(r) => {
                &&& r.from.wf()
                &&& (r.until matches Some(u) ==> u.wf())
                &&& (r.date_divisor matches DateDivisor::Weekdays(w) ==> w.bits & 0x7fu8 != 0)
            },
        }
    }
}

impl TimePattern {
    pub open spec fn wf(self) -> bool {
        match self {
            TimePattern::Point(t) => t.wf(),
            TimePattern::Range(r) => {
                &&& (r.from matches Some(t) ==> t.wf())
                &&& (r.until matches Some(t) ==> t.wf())
                &&& r.interval.total_secs() > 0
            },
        }
    }
}

impl Recurrence {
    /// Valid dates and times, weekday sets that are not empty and time steps that are not zero.
    pub open spec fn wf(self) -> bool {
        &&& forall|i: int| 0 <= i < self.dates_patterns@.len() ==> #[trigger] self.dates_patterns@[i].wf()
        &&& forall|i: int| 0 <= i < self.time_patterns@.len() ==> #[trigger] self.time_patterns@[i].wf()
    }
}

// ---------------------------------------------------------------------------
// filling in the holes of dates

pub open spec fn opt_or<T>(o: Option<T>, default: T) -> T {
    match o {
        Some(v) => v,
        None => default,
    }
}

/// The first of the day counts in `incs` that, added to `t`, passes `lower_bound`;
/// `t` itself where none does.
pub open spec fn spec_first_increment(t: Date, incs: Seq<int>, lower_bound: Date) -> Option<Date>
    decreases incs.len(),
{
    if incs.len() == 0 {
        Some(t)
    } else {
        match spec_date_add_days(t, incs[0]) {
            None => None,
            Some(n) => if date_lt(lower_bound, n) {
                Some(n)
            } else {
                spec_first_increment(t, incs.drop_first(), lower_bound)
            },
        }
    }
}

/// A holey date with its holes filled from `lower_bound`, moved on by a day, a month's
/// days or a year's days (as far as the holes allow) where it falls before `lower_bound`.
pub open spec fn spec_fill_date_holes(h: grammar::HoleyDate, lower_bound: Date) -> Option<Date> {
    let year = opt_or(h.year, lower_bound.year);
    let month = opt_or(h.month, lower_bound.month);
    let day = opt_or(h.day, lower_bound.day);
    if !valid_ymd(year as int, month as int, day as int) {
        None
    } else {
        let t = Date { year, month, day };
        if date_le(lower_bound, t) {
            Some(t)
        } else {
            let dim = spec_days_in_month(t.year as int, t.month as int);
            let diy = spec_days_in_year(t.year as int);
            let incs = if h.day is None {
                seq![1int, dim, diy]
            } else if h.month is None {
                seq![dim, diy]
            } else {
                seq![diy]
            };
            spec_first_increment(t, incs, lower_bound)
        }
    }
}

/// Whether the steps end with a whole year of `t`'s (each step a day up to a year), with
/// `t` in `lower_bound`'s year, two or more years before the last `chrono` holds: then
/// some step passes `lower_bound`.
pub open spec fn ends_with_year_step(t: Date, incs: Seq<u32>, lower_bound: Date) -> bool {
    &&& incs.len() > 0
    &&& incs.last() == spec_days_in_year(t.year as int)
    &&& forall|j: int| 0 <= j < incs.len() ==> 1 <= #[trigger] incs[j] <= 366
    &&& t.year == lower_bound.year
    &&& t.year <= MAX_YEAR - 2
    &&& lower_bound.wf()
}

fn first_increment(t: &Date, incs: &Vec<u32>, lower_bound: &Date) -> (r: Option<Date>)
    requires
        t.wf(),
    ensures
        r == spec_first_increment(*t, incs@.map_values(|x: u32| x as int), *lower_bound),
        r matches Some(d) ==> d.wf(),
        ends_with_year_step(*t, incs@, *lower_bound) ==> (r matches Some(n) && date_lt(
            *lower_bound,
            n,
        )),
{
    let ghost all = incs@.map_values(|x: u32| x as int);
    let ghost cond = ends_with_year_step(*t, incs@, *lower_bound);
    assert(all.skip(0) =~= all);
    let mut i: usize = 0;
    while i < incs.len()
        invariant
            t.wf(),
            i <= incs@.len(),
            all == incs@.map_values(|x: u32| x as int),
            spec_first_increment(*t, all, *lower_bound) == spec_first_increment(
                *t,
                all.skip(i as int),
                *lower_bound,
            ),
            cond == ends_with_year_step(*t, incs@, *lower_bound),
            cond ==> i < incs@.len(),
        decreases incs@.len() - i,
    {
        proof {
            if cond {
                lemma_day_number_range(*t);
                assert(1 <= incs@[i as int] <= 366);
            }
        }
        let n = date_add_days(t, incs[i] as i64);
        assert(all.skip(i as int)[0] == incs@[i as int] as int);
        assert(all.skip(i as int).drop_first() =~= all.skip(i + 1));
        match n {
            None => {
                return None;
            },
            Some(n) => {
                proof {
                    if cond && i + 1 == incs@.len() {
                        lemma_day_number_in_year(*t);
                        lemma_day_number_in_year(*lower_bound);
                        lemma_day_number_order(*lower_bound, n);
                    }
                }
                if date_lt_exec(lower_bound, &n) {
                    return Some(n);
                }
            },
        }
        i += 1;
    }
    assert(all.skip(i as int) =~= Seq::<int>::empty());
    Some(*t)
}

/// Fills the holes of a date from `lower_bound`, moving it past `lower_bound` where the
/// holes allow.
pub fn fill_date_holes(holey_date: &grammar::HoleyDate, lower_bound: &Date) -> (r: Option<Date>)
    requires
        lower_bound.wf(),
    ensures
        r == spec_fill_date_holes(*holey_date, *lower_bound),
        r matches Some(d) ==> d.wf(),
        // With the year left out (and two years or more left before `chrono`'s last), the
        // result is missing only where the date made up of the given fields and the bound's
        // others does not exist, and it is never before the bound.
        holey_date.year is None && lower_bound.year <= MAX_YEAR - 2 ==> (r is None <==> !valid_ymd(
            lower_bound.year as int,
            opt_or(holey_date.month, lower_bound.month) as int,
            opt_or(holey_date.day, lower_bound.day) as int,
        )) && (r matches Some(d) ==> date_le(*lower_bound, d)),
        // A date with every field left out is the bound itself.
        holey_date.year is None && holey_date.month is None && holey_date.day is None ==> r == Some(
            *lower_bound,
        ),
{
    let year = match holey_date.year {
        Some(y) => y,
        None => lower_bound.year,
    };
    let month = match holey_date.month {
        Some(m) => m,
        None => lower_bound.month,
    };
    let day = match holey_date.day {
        Some(d) => d,
        None => lower_bound.day,
    };
    let time = from_ymd_opt(year, month, day)?;
    if date_le_exec(lower_bound, &time) {
        return Some(time);
    }
    let dim = days_in_month(time.year, time.month);
    let diy = days_in_year(time.year);
    let incs: Vec<u32> = if holey_date.day.is_none() {
        vec![1, dim, diy]
    } else if holey_date.month.is_none() {
        vec![dim, diy]
    } else {
        vec![diy]
    };
    assert(incs@.map_values(|x: u32| x as int) =~= (if holey_date.day is None {
        seq![1int, dim as int, diy as int]
    } else if holey_date.month is None {
        seq![dim as int, diy as int]
    } else {
        seq![diy as int]
    }));
    assert(incs@.last() == diy);
    assert(forall|j: int| 0 <= j < incs@.len() ==> 1 <= #[trigger] incs@[j] <= 366);
    first_increment(&time, &incs, lower_bound)
}

// ---------------------------------------------------------------------------
// conversions from what the grammar reads

impl Interval {
    pub fn from_grammar(interval: grammar::Interval) -> (r: Interval)
        ensures
            r == (Interval {
                years: interval.years,
                months: interval.months,
                weeks: interval.weeks,
                days: interval.days,
                hours: interval.hours,
                minutes: interval.minutes,
                seconds: interval.seconds,
            }),
    {
        Interval {
            years: interval.years,
            months: interval.months,
            weeks: interval.weeks,
            days: interval.days,
            hours: interval.hours,
            minutes: interval.minutes,
            seconds: interval.seconds,
        }
    }
}

impl Weekdays {
    /// The days of a grammar weekday set, Monday to Sunday.
    pub fn from_grammar(weekdays: grammar::Weekdays) -> (r: Weekdays)
        ensures
            forall|i: nat| r.has(i) <==> weekdays.has(i),
            r.bits == weekdays.bits & 0x7fu8,
    {
        let b = weekdays.bits;
        let r = Weekdays { bits: b & 0x7fu8 };
        assert forall|i: nat| r.has(i) <==> weekdays.has(i) by {
            if i < 7 {
                let k = i as u8;
                assert(((b & 0x7fu8) >> k) & 1u8 == (b >> k) & 1u8) by (bit_vector)
                    requires
                        k < 7,
                ;
            }
        }
        r
    }

    /// The days of the set as numbers from Monday (0), in order.
    pub fn to_day_numbers(self) -> (r: Vec<u32>)
        ensures
            r@ == self.day_numbers(),
    {
        let ghost all = week_numbers();
        let ghost pred = self.has_fn();
        let mut r: Vec<u32> = Vec::new();
        let mut i: u32 = 0;
        while i < 7
            invariant
                i <= 7,
                all == week_numbers(),
                pred == self.has_fn(),
                r@ == all.subrange(0, i as int).filter(pred),
            decreases 7 - i,
        {
            proof {
                assert(all.subrange(0, i + 1).drop_last() =~= all.subrange(0, i as int));
                reveal_with_fuel(Seq::filter, 1);
            }
            if self.contains_day(i) {
                r.push(i);
            }
            i += 1;
        }
        assert(all.subrange(0, 7) =~= all);
        r
    }

    pub fn contains_day(self, i: u32) -> (r: bool)
        requires
            i < 7,
        ensures
            r == self.has(i as nat),
    {
        (self.bits >> (i as u8)) & 1u8 == 1u8
    }
}

/// A set that holds a day from Monday to Sunday lists one of them.
pub proof fn lemma_day_numbers_nonempty(w: Weekdays)
    requires
        w.bits & 0x7fu8 != 0,
    ensures
        exists|d: u32| d < 7 && w.day_numbers().contains(d),
{
    let b = w.bits;
    let all = week_numbers();
    let pred = w.has_fn();
    assert(exists|k: u8| k < 7 && (b >> k) & 1u8 == 1u8) by {
        if (b >> 0u8) & 1u8 != 1u8 && (b >> 1u8) & 1u8 != 1u8 && (b >> 2u8) & 1u8 != 1u8 && (b
            >> 3u8) & 1u8 != 1u8 && (b >> 4u8) & 1u8 != 1u8 && (b >> 5u8) & 1u8 != 1u8 && (b
            >> 6u8) & 1u8 != 1u8 {
            assert(b & 0x7fu8 == 0) by (bit_vector)
                requires
                    (b >> 0u8) & 1u8 != 1u8,
                    (b >> 1u8) & 1u8 != 1u8,
                    (b >> 2u8) & 1u8 != 1u8,
                    (b >> 3u8) & 1u8 != 1u8,
                    (b >> 4u8) & 1u8 != 1u8,
                    (b >> 5u8) & 1u8 != 1u8,
                    (b >> 6u8) & 1u8 != 1u8,
            ;
        }
    }
    let k = choose|k: u8| k < 7 && (b >> k) & 1u8 == 1u8;
    let d = k as u32;
    assert(all[d as int] == d);
    assert(w.has(d as nat));
    assert(pred(all[d as int]));
    all.lemma_filter_contains(pred, d as int);
    assert(w.day_numbers().contains(d));
}

impl DateInterval {
    pub fn from_grammar(interval: grammar::DateInterval) -> (r: DateInterval)
        ensures
            r == (DateInterval {
                years: interval.years,
                months: interval.months,
                weeks: interval.weeks,
                days: interval.days,
            }),
    {
        DateInterval {
            years: interval.years,
            months: interval.months,
            weeks: interval.weeks,
            days: interval.days,
        }
    }
}

pub open spec fn spec_divisor_from_grammar(d: grammar::DateDivisor) -> DateDivisor {
    match d {
        grammar::DateDivisor::Weekdays(w) => DateDivisor::Weekdays(Weekdays { bits: w.bits & 0x7fu8 }),
        grammar::DateDivisor::Interval(i) => DateDivisor::Interval(
            DateInterval { years: i.years, months: i.months, weeks: i.weeks, days: i.days },
        ),
    }
}

impl DateDivisor {
    pub fn from_grammar(date_divisor: grammar::DateDivisor) -> (r: DateDivisor)
        ensures
            r == spec_divisor_from_grammar(date_divisor),
    {
        match date_divisor {
            grammar::DateDivisor::Weekdays(weekdays) => DateDivisor::Weekdays(
                Weekdays::from_grammar(weekdays),
            ),
            grammar::DateDivisor::Interval(interval) => DateDivisor::Interval(
                DateInterval::from_grammar(interval),
            ),
        }
    }
}

/// The time of day that a grammar time names, if it names one.
pub open spec fn spec_time_from(t: grammar::Time) -> Option<TimeOfDay> {
    if t.hour < 24 && t.minute < 60 && t.second < 60 {
        Some(TimeOfDay { secs: hms_secs(t.hour as int, t.minute as int, t.second as int) as u32 })
    } else {
        None
    }
}

pub fn time_from(time: &grammar::Time) -> (r: Option<TimeOfDay>)
    ensures
        r == spec_time_from(*time),
        r matches Some(t) ==> t.wf(),
{
    from_hms_opt(time.hour, time.minute, time.second)
}

pub open spec fn opt_time_from(t: Option<grammar::Time>) -> Option<TimeOfDay> {
    match t {
        Some(t) => spec_time_from(t),
        None => None,
    }
}

pub open spec fn spec_time_range_from(r: grammar::TimeRange) -> TimeRange {
    TimeRange {
        from: opt_time_from(r.from),
        until: opt_time_from(r.until),
        interval: TimeInterval {
            hours: r.interval.hours,
            minutes: r.interval.minutes,
            seconds: r.interval.seconds,
        },
    }
}

pub open spec fn spec_time_pattern_from(p: grammar::TimePattern) -> Option<TimePattern> {
    match p {
        grammar::TimePattern::Point(t) => match spec_time_from(t) {
            Some(t) => Some(TimePattern::Point(t)),
            None => None,
        },
        grammar::TimePattern::Range(r) => Some(TimePattern::Range(spec_time_range_from(r))),
    }
}

impl TimeRange {
    pub fn from_grammar(time_range: grammar::TimeRange) -> (r: TimeRange)
        ensures
            r == spec_time_range_from(time_range),
    {
        let from = match time_range.from {
            Some(t) => time_from(&t),
            None => None,
        };
        let until = match time_range.until {
            Some(t) => time_from(&t),
            None => None,
        };
        TimeRange {
            from,
            until,
            interval: TimeInterval {
                hours: time_range.interval.hours,
                minutes: time_range.interval.minutes,
                seconds: time_range.interval.seconds,
            },
        }
    }
}

impl TimePattern {
    pub fn from_grammar(time_pattern: grammar::TimePattern) -> (r: Option<TimePattern>)
        ensures
            r == spec_time_pattern_from(time_pattern),
    {
        match time_pattern {
            grammar::TimePattern::Point(time) => match time_from(&time) {
                Some(t) => Some(TimePattern::Point(t)),
                None => None,
            },
            grammar::TimePattern::Range(time_range) => Some(
                TimePattern::Range(TimeRange::from_grammar(time_range)),
            ),
        }
    }

    pub open spec fn spec_first_time(self) -> Option<TimeOfDay> {
        match self {
            TimePattern::Point(t) => Some(t),
            TimePattern::Range(r) => r.from,
        }
    }

    /// The first time of day the pattern names, where it names one.
    pub fn get_first_time(&self) -> (r: Option<TimeOfDay>)
        ensures
            r == self.spec_first_time(),
    {
        match self {
            TimePattern::Point(t) => Some(*t),
            TimePattern::Range(range) => range.from,
        }
    }
}

// ---------------------------------------------------------------------------
// from what the grammar reads to a stored recurrence

/// The time of day a recurrence starts at: that of its first time pattern (midnight for a
/// range without a start), or the lower bound's where it names no time.
/// `None` where the first time pattern names no valid time.
pub open spec fn spec_holey_first_time(rec: grammar::Recurrence, lower_bound: DateTime) -> Option<
    TimeOfDay,
> {
    if rec.time_patterns@.len() == 0 {
        Some(lower_bound.time)
    } else {
        match rec.time_patterns@[0] {
            grammar::TimePattern::Point(t) => spec_time_from(t),
            grammar::TimePattern::Range(r) => Some(opt_or(opt_time_from(r.from), TimeOfDay { secs: 0 })),
        }
    }
}

pub open spec fn holey_first_date(p: grammar::DatePattern) -> grammar::HoleyDate {
    match p {
        grammar::DatePattern::Point(d) => d,
        grammar::DatePattern::Range(r) => r.from,
    }
}

pub open spec fn has_time_divisor(times: Seq<grammar::TimePattern>) -> bool {
    exists|i: int| 0 <= i < times.len() && #[trigger] times[i] is Range
}

pub open spec fn pair_opt<A, B>(a: Option<A>, b: Option<B>) -> Option<(A, B)> {
    match (a, b) {
        (Some(x), Some(y)) => Some((x, y)),
        _ => None,
    }
}

/// Prepends `prefix` to the sequence, where there is one.
pub open spec fn prepend_opt<T>(prefix: Seq<T>, o: Option<Seq<T>>) -> Option<Seq<T>> {
    match o {
        Some(s) => Some(prefix + s),
        None => None,
    }
}

/// The date patterns with their holes filled, each from the date the one before it
/// ended on (from `lower_bound` for the first).
pub open spec fn spec_fill_patterns(pats: Seq<grammar::DatePattern>, lower_bound: Date) -> Option<
    Seq<DatePattern>,
>
    decreases pats.len(),
{
    if pats.len() == 0 {
        Some(Seq::empty())
    } else {
        match pats[0] {
            grammar::DatePattern::Point(h) => match spec_fill_date_holes(h, lower_bound) {
                None => None,
                Some(d) => prepend_opt(
                    seq![DatePattern::Point(d)],
                    spec_fill_patterns(pats.drop_first(), d),
                ),
            },
            grammar::DatePattern::Range(r) => match spec_fill_date_holes(r.from, lower_bound) {
                None => None,
                Some(f) => {
                    let until = match r.until {
                        Some(u) => spec_fill_date_holes(u, f),
                        None => None,
                    };
                    let next_bound = match until {
                        Some(u) => u,
                        None => f,
                    };
                    prepend_opt(
                        seq![
                            DatePattern::Range(
                                DateRange {
                                    from: f,
                                    until,
                                    date_divisor: spec_divisor_from_grammar(r.date_divisor),
                                },
                            ),
                        ],
                        spec_fill_patterns(pats.drop_first(), next_bound),
                    )
                },
            },
        }
    }
}

/// The time patterns converted one by one; `None` where one names no valid time.
pub open spec fn spec_convert_times(times: Seq<grammar::TimePattern>) -> Option<Seq<TimePattern>>
    decreases times.len(),
{
    if times.len() == 0 {
        Some(Seq::empty())
    } else {
        match spec_time_pattern_from(times[0]) {
            None => None,
            Some(t) => prepend_opt(seq![t], spec_convert_times(times.drop_first())),
        }
    }
}

/// Whether a recurrence with a time step starts on the next day: its first date is a
/// single day left out of the text (so filled with today), and none of the times `times`
/// names is still to come today.
pub open spec fn rolls_to_next_day(
    rec: grammar::Recurrence,
    lower_bound: DateTime,
    d: Date,
    times: Seq<TimePattern>,
) -> bool {
    &&& rec.dates()[0] is Point
    &&& holey_first_date(rec.dates()[0]).day is None
    &&& has_time_divisor(rec.time_patterns@)
    &&& d == lower_bound.date
    &&& spec_min_time(times, lower_bound.time) is None
}

/// The first occurrence a recurrence names, moved past `lower_bound` by a day, a month's
/// days or a year's days (as far as the holes of its first date allow) where it falls
/// before it and the recurrence has no date or time divisor; moved to the next day where
/// the recurrence has a time step with nothing left of it today (`times` are its time
/// patterns, converted).
pub open spec fn spec_initial_time(
    rec: grammar::Recurrence,
    lower_bound: DateTime,
    times: Seq<TimePattern>,
) -> Option<DateTime> {
    let first = holey_first_date(rec.dates()[0]);
    let has_divisor = rec.dates()[0] is Range;
    let has_tdiv = has_time_divisor(rec.time_patterns@);
    match spec_holey_first_time(rec, lower_bound) {
        None => None,
        Some(first_time) => match spec_fill_date_holes(first, lower_bound.date) {
            None => None,
            Some(d) => {
                let init = DateTime { date: d, time: first_time };
                if datetime_lt(init, lower_bound) && !has_divisor && !has_tdiv {
                    let days = if first.day is None {
                        1
                    } else if first.month is None {
                        spec_days_in_month(d.year as int, d.month as int)
                    } else {
                        spec_days_in_year(d.year as int)
                    };
                    match spec_date_add_days(d, days) {
                        None => None,
                        Some(d2) => Some(DateTime { date: d2, time: first_time }),
                    }
                } else if rolls_to_next_day(rec, lower_bound, d, times) {
                    match spec_date_add_days(d, 1) {
                        None => None,
                        Some(d2) => Some(DateTime { date: d2, time: first_time }),
                    }
                } else {
                    Some(init)
                }
            },
        },
    }
}

/// The stored form of a recurrence read from a text, with `lower_bound` (the current
/// time) filling the holes of its dates. `None` where a date or time is not valid or the
/// recurrence, having no divisor, names no time from `lower_bound` on.
pub open spec fn spec_from_holey(rec: grammar::Recurrence, lower_bound: DateTime) -> Option<
    (Seq<DatePattern>, Seq<TimePattern>),
> {
    let has_divisor = rec.dates()[0] is Range;
    let has_tdiv = has_time_divisor(rec.time_patterns@);
    match spec_convert_times(rec.time_patterns@) {
        None => None,
        Some(times) => match spec_initial_time(rec, lower_bound, times) {
            None => None,
            Some(init) => if !(has_divisor || has_tdiv || !datetime_lt(init, lower_bound)) {
                None
            } else {
                pair_opt(spec_fill_patterns(rec.dates(), init.date), Some(times))
            },
        },
    }
}

impl Recurrence {
    /// Converts what the grammar read into a stored recurrence, filling the holes of its
    /// dates from `lower_bound` (the current time).
    pub fn from_holey(recurrence: grammar::Recurrence, lower_bound: &DateTime) -> (r: Result<
        Recurrence,
        (),
    >)
        requires
            recurrence.wf(),
            lower_bound.wf(),
        ensures
            r is Ok <==> spec_from_holey(recurrence, *lower_bound) is Some,
            r matches Ok(v) ==> (v.dates_patterns@, v.time_patterns@) == spec_from_holey(
                recurrence,
                *lower_bound,
            ).unwrap() && v.wf(),
    {
        let ghost rec = recurrence;
        // the time patterns, converted
        let mut times: Vec<TimePattern> = Vec::new();
        let ghost tall = recurrence.time_patterns@;
        assert(tall.skip(0) =~= tall);
        proof {
            lemma_prepend_empty(spec_convert_times(tall));
        }
        let mut k: usize = 0;
        while k < recurrence.time_patterns.len()
            invariant
                k <= tall.len(),
                tall == recurrence.time_patterns@,
                rec == recurrence,
                rec.wf(),
                spec_convert_times(tall) == prepend_opt(times@, spec_convert_times(tall.skip(k as int))),
                forall|j: int| 0 <= j < times@.len() ==> #[trigger] times@[j].wf(),
            decreases tall.len() - k,
        {
            let ghost rest = tall.skip(k as int);
            let ghost before = times@;
            assert(rest[0] == tall[k as int]);
            assert(rest.drop_first() =~= tall.skip(k + 1));
            match TimePattern::from_grammar(recurrence.time_patterns[k]) {
                None => {
                    assert(spec_convert_times(rest) is None);
                    assert(spec_from_holey(rec, *lower_bound) is None);
                    return Err(());
                },
                Some(t) => {
                    proof {
                        lemma_time_pattern_from_wf(tall[k as int]);
                    }
                    times.push(t);
                },
            }
            proof {
                assert forall|j: int| 0 <= j < times@.len() implies #[trigger] times@[j].wf() by {
                    if j < before.len() {
                        assert(times@[j] == before[j]);
                    }
                }
            }
            k += 1;
        }
        assert(tall.skip(k as int) =~= Seq::<grammar::TimePattern>::empty());
        assert(times@ + Seq::<TimePattern>::empty() =~= times@);
        assert(spec_convert_times(tall) == Some(times@));
        // the first occurrence
        let first_time = if recurrence.time_patterns.len() == 0 {
            lower_bound.time
        } else {
            match recurrence.time_patterns[0] {
                grammar::TimePattern::Point(t) => match time_from(&t) {
                    Some(x) => x,
                    None => {
                        return Err(());
                    },
                },
                grammar::TimePattern::Range(range) => match range.from {
                    Some(t) => match time_from(&t) {
                        Some(x) => x,
                        None => TimeOfDay { secs: 0 },
                    },
                    None => TimeOfDay { secs: 0 },
                },
            }
        };
        assert(spec_holey_first_time(rec, *lower_bound) == Some(first_time));
        let first_pattern = *dates_first(&recurrence.dates_patterns);
        let (first_date, has_divisor) = match first_pattern {
            grammar::DatePattern::Point(d) => (d, false),
            grammar::DatePattern::Range(r) => (r.from, true),
        };
        let mut has_tdiv = false;
        let mut i: usize = 0;
        while i < recurrence.time_patterns.len()
            invariant
                i <= recurrence.time_patterns@.len(),
                has_tdiv <==> exists|j: int| 0 <= j < i && #[trigger] recurrence.time_patterns@[j] is Range,
            decreases recurrence.time_patterns@.len() - i,
        {
            if let grammar::TimePattern::Range(_) = recurrence.time_patterns[i] {
                has_tdiv = true;
            }
            i += 1;
        }
        assert(has_tdiv == has_time_divisor(rec.time_patterns@));
        let d = match fill_date_holes(&first_date, &lower_bound.date) {
            Some(d) => d,
            None => {
                return Err(());
            },
        };
        let mut init = DateTime { date: d, time: first_time };
        if datetime_lt_exec(&init, lower_bound) && !has_divisor && !has_tdiv {
            let days: u32 = if first_date.day.is_none() {
                1
            } else if first_date.month.is_none() {
                days_in_month(d.year, d.month)
            } else {
                days_in_year(d.year)
            };
            match date_add_days(&d, days as i64) {
                None => {
                    return Err(());
                },
                Some(d2) => {
                    init = DateTime { date: d2, time: first_time };
                },
            }
        } else if !has_divisor && first_date.day.is_none() && has_tdiv && d.year
            == lower_bound.date.year && d.month == lower_bound.date.month && d.day
            == lower_bound.date.day && min_time(&times, lower_bound.time).is_none() {
            match date_add_days(&d, 1) {
                None => {
                    return Err(());
                },
                Some(d2) => {
                    init = DateTime { date: d2, time: first_time };
                },
            }
        }
        assert(spec_initial_time(rec, *lower_bound, times@) == Some(init));
        if !(has_divisor || has_tdiv || !datetime_lt_exec(&init, lower_bound)) {
            return Err(());
        }
        let pats = dates_into_vec(recurrence.dates_patterns);
        let ghost all = pats@;
        assert(spec_from_holey(rec, *lower_bound) == pair_opt(
            spec_fill_patterns(all, init.date),
            Some(times@),
        ));
        assert(all.skip(0) =~= all);
        proof {
            lemma_prepend_empty(spec_fill_patterns(all, init.date));
        }
        let mut cur_lb = init.date;
        let mut dates: Vec<DatePattern> = Vec::new();
        let mut i: usize = 0;
        while i < pats.len()
            invariant
                i <= pats@.len(),
                all == pats@,
                rec == recurrence,
                all == rec.dates(),
                spec_from_holey(rec, *lower_bound) == pair_opt(
                    spec_fill_patterns(all, init.date),
                    Some(times@),
                ),
                cur_lb.wf(),
                rec.wf(),
                spec_fill_patterns(all, init.date) == prepend_opt(
                    dates@,
                    spec_fill_patterns(all.skip(i as int), cur_lb),
                ),
                forall|j: int| 0 <= j < dates@.len() ==> #[trigger] dates@[j].wf(),
            decreases pats@.len() - i,
        {
            let ghost rest = all.skip(i as int);
            let ghost before = dates@;
            assert(rest[0] == all[i as int]);
            assert(rest.drop_first() =~= all.skip(i + 1));
            let p = pats[i];
            match p {
                grammar::DatePattern::Point(holey) => {
                    match fill_date_holes(&holey, &cur_lb) {
                        None => {
                            assert(spec_fill_patterns(rest, cur_lb) is None);
                            return Err(());
                        },
                        Some(date) => {
                            dates.push(DatePattern::Point(date));
                            cur_lb = date;
                        },
                    }
                },
                grammar::DatePattern::Range(range) => {
                    let date_from = match fill_date_holes(&range.from, &cur_lb) {
                        None => {
                            assert(spec_fill_patterns(rest, cur_lb) is None);
                            return Err(());
                        },
                        Some(f) => f,
                    };
                    cur_lb = date_from;
                    let date_until = match range.until {
                        Some(u) => match fill_date_holes(&u, &cur_lb) {
                            Some(ud) => {
                                cur_lb = ud;
                                Some(ud)
                            },
                            None => None,
                        },
                        None => None,
                    };
                    proof {
                        lemma_divisor_from_grammar_wf(range.date_divisor);
                        assert(rec.dates()[i as int] == p);
                    }
                    dates.push(
                        DatePattern::Range(
                            DateRange {
                                from: date_from,
                                until: date_until,
                                date_divisor: DateDivisor::from_grammar(range.date_divisor),
                            },
                        ),
                    );
                },
            }
            proof {
                assert forall|j: int| 0 <= j < dates@.len() implies #[trigger] dates@[j].wf() by {
                    if j < before.len() {
                        assert(dates@[j] == before[j]);
                    }
                }
            }
            i += 1;
        }
        assert(all.skip(i as int) =~= Seq::<grammar::DatePattern>::empty());
        assert(dates@ + Seq::<DatePattern>::empty() =~= dates@);
        Ok(Recurrence { dates_patterns: dates, time_patterns: times })
    }
}

/// The earliest of the times of day after `cur` that the time patterns name.
fn min_time(times: &Vec<TimePattern>, cur: TimeOfDay) -> (r: Option<TimeOfDay>)
    requires
        forall|j: int| 0 <= j < times@.len() ==> #[trigger] times@[j].wf(),
        cur.wf(),
    ensures
        r == spec_min_time(times@, cur),
        r matches Some(t) ==> t.wf() && t.secs > cur.secs,
{
    let ghost all = times@;
    let mut best: Option<TimeOfDay> = None;
    let mut i: usize = 0;
    while i < times.len()
        invariant
            forall|j: int| 0 <= j < times@.len() ==> #[trigger] times@[j].wf(),
            cur.wf(),
            all == times@,
            i <= all.len(),
            best == spec_min_time(all.subrange(0, i as int), cur),
            best matches Some(t) ==> t.wf() && t.secs > cur.secs,
        decreases all.len() - i,
    {
        assert(all[i as int].wf());
        let cand = time_candidate(&times[i], cur);
        assert(all.subrange(0, i + 1).drop_last() =~= all.subrange(0, i as int));
        best = min_time_opt_exec(best, cand);
        i += 1;
    }
    assert(all.subrange(0, all.len() as int) =~= all);
    best
}

pub proof fn lemma_divisor_from_grammar_wf(d: grammar::DateDivisor)
    ensures
        d matches grammar::DateDivisor::Weekdays(w) && w.bits & 0x7fu8 != 0 ==> (
        spec_divisor_from_grammar(d) matches DateDivisor::Weekdays(v) && v.bits & 0x7fu8 != 0),
{
    if let grammar::DateDivisor::Weekdays(w) = d {
        let b = w.bits;
        assert((b & 0x7fu8) & 0x7fu8 == b & 0x7fu8) by (bit_vector);
    }
}

pub proof fn lemma_time_pattern_from_wf(p: grammar::TimePattern)
    requires
        p matches grammar::TimePattern::Range(r) ==> r.interval.total_secs() > 0,
    ensures
        spec_time_pattern_from(p) matches Some(t) ==> t.wf(),
{
}

// ---------------------------------------------------------------------------
// the next occurrence of a recurrence

pub open spec fn range_start(r: TimeRange) -> TimeOfDay {
    opt_or(r.from, TimeOfDay { secs: 0 })
}

/// The first time of day after `cur` that a time pattern names, on the same day.
pub open spec fn spec_time_candidate(tp: TimePattern, cur: TimeOfDay) -> Option<TimeOfDay> {
    match tp {
        TimePattern::Point(t) => if t.secs > cur.secs {
            Some(t)
        } else {
            None
        },
        TimePattern::Range(r) => {
            let open = match r.until {
                Some(u) => u.secs > cur.secs,
                None => true,
            };
            let from = range_start(r);
            if !open {
                None
            } else if from.secs > cur.secs {
                Some(from)
            } else {
                let step = r.interval.total_secs();
                let n = spec_time_add_wrapping(from, ((cur.secs - from.secs) / step + 1) * step);
                let in_range = match r.until {
                    Some(u) => n.secs <= u.secs,
                    None => true,
                };
                if n.secs > cur.secs && in_range {
                    Some(n)
                } else {
                    None
                }
            }
        },
    }
}

pub open spec fn min_time_opt(a: Option<TimeOfDay>, b: Option<TimeOfDay>) -> Option<TimeOfDay> {
    match (a, b) {
        (None, _) => b,
        (_, None) => a,
        (Some(x), Some(y)) => if y.secs < x.secs {
            b
        } else {
            a
        },
    }
}

/// The earliest of the times of day after `cur` that the time patterns name.
pub open spec fn spec_min_time(tps: Seq<TimePattern>, cur: TimeOfDay) -> Option<TimeOfDay>
    decreases tps.len(),
{
    if tps.len() == 0 {
        None
    } else {
        min_time_opt(spec_min_time(tps.drop_last(), cur), spec_time_candidate(tps.last(), cur))
    }
}

/// The first date after `cur` reached from `from` by steps of `interval`; `None` where a
/// step leaves `chrono`'s range or does not move the date forward.
pub open spec fn spec_step_past(from: Date, interval: DateInterval, cur: Date) -> Option<Date>
    decreases date_code(cur) - date_code(from),
{
    if !(from.wf() && cur.wf()) {
        None
    } else if date_lt(cur, from) {
        Some(from)
    } else {
        match spec_add_date_interval(from, interval) {
            None => None,
            Some(n) => if !(date_lt(from, n) && n.wf()) {
                None
            } else if date_lt(cur, n) {
                Some(n)
            } else {
                proof {
                    lemma_date_code_order(from, n);
                    lemma_date_code_order(n, cur);
                }
                spec_step_past(n, interval, cur)
            },
        }
    }
}

/// The first date after `cur` that a date pattern names.
pub open spec fn spec_date_candidate(dp: DatePattern, cur: Date) -> Option<Date> {
    match dp {
        DatePattern::Point(d) => if date_lt(cur, d) {
            Some(d)
        } else {
            None
        },
        DatePattern::Range(r) => {
            let open = match r.until {
                Some(u) => date_lt(cur, u),
                None => true,
            };
            if !open {
                None
            } else if date_lt(cur, r.from) {
                Some(r.from)
            } else {
                let next = match r.date_divisor {
                    DateDivisor::Weekdays(w) => match spec_date_add_days(cur, 1) {
                        Some(c1) => spec_nearest_weekday(c1, w.day_numbers(), 6),
                        None => None,
                    },
                    DateDivisor::Interval(i) => spec_step_past(r.from, i, cur),
                };
                match next {
                    Some(n) => {
                        let in_range = match r.until {
                            Some(u) => date_le(n, u),
                            None => true,
                        };
                        if in_range {
                            Some(n)
                        } else {
                            None
                        }
                    },
                    None => None,
                }
            }
        },
    }
}

pub open spec fn min_date_opt(a: Option<Date>, b: Option<Date>) -> Option<Date> {
    match (a, b) {
        (None, _) => b,
        (_, None) => a,
        (Some(x), Some(y)) => if date_lt(y, x) {
            b
        } else {
            a
        },
    }
}

/// The earliest of the dates after `cur` that the date patterns name.
pub open spec fn spec_min_date(dps: Seq<DatePattern>, cur: Date) -> Option<Date>
    decreases dps.len(),
{
    if dps.len() == 0 {
        None
    } else {
        min_date_opt(spec_min_date(dps.drop_last(), cur), spec_date_candidate(dps.last(), cur))
    }
}

pub open spec fn date_pattern_first(p: DatePattern) -> Date {
    match p {
        DatePattern::Point(d) => d,
        DatePattern::Range(r) => r.from,
    }
}

/// The time of day of the first time pattern (midnight for a range without a start),
/// or `cur`'s where there is none.
pub open spec fn spec_first_time(times: Seq<TimePattern>, cur: DateTime) -> TimeOfDay {
    if times.len() == 0 {
        cur.time
    } else {
        match times[0] {
            TimePattern::Point(t) => t,
            TimePattern::Range(r) => range_start(r),
        }
    }
}

/// When a recurrence is next due after `cur`: at the first time on its first date where
/// that date is still to come; else at the earliest time still to come today; else at
/// the first time on the earliest date still to come.
pub open spec fn spec_next(dates: Seq<DatePattern>, times: Seq<TimePattern>, cur: DateTime) -> Option<
    DateTime,
> {
    if dates.len() == 0 {
        None
    } else {
        let first_date = date_pattern_first(dates[0]);
        let first_time = spec_first_time(times, cur);
        if date_lt(cur.date, first_date) {
            Some(DateTime { date: first_date, time: first_time })
        } else {
            match spec_min_time(times, cur.time) {
                Some(t) => Some(DateTime { date: cur.date, time: t }),
                None => match spec_min_date(dates, cur.date) {
                    Some(d) => Some(DateTime { date: d, time: first_time }),
                    None => None,
                },
            }
        }
    }
}

/// The earliest of the times the patterns name after `cur` is one of them, no later than
/// any of them; there is none exactly where no pattern names a time after `cur`.
pub proof fn lemma_min_time(tps: Seq<TimePattern>, cur: TimeOfDay)
    ensures
        spec_min_time(tps, cur) is None <==> forall|i: int|
            0 <= i < tps.len() ==> (#[trigger] spec_time_candidate(tps[i], cur)) is None,
        spec_min_time(tps, cur) matches Some(t) ==> (exists|i: int|
            0 <= i < tps.len() && #[trigger] spec_time_candidate(tps[i], cur) == Some(t)) && (
        forall|i: int|
            0 <= i < tps.len() && (#[trigger] spec_time_candidate(tps[i], cur)) is Some ==> t.secs
                <= spec_time_candidate(tps[i], cur).unwrap().secs),
    decreases tps.len(),
{
    if tps.len() > 0 {
        let init = tps.drop_last();
        lemma_min_time(init, cur);
        assert forall|i: int| 0 <= i < init.len() implies init[i] == tps[i] by {}
        let last = tps.len() - 1;
        assert(tps[last] == tps.last());
        if spec_min_time(tps, cur) is None {
            assert forall|i: int| 0 <= i < tps.len() implies (#[trigger] spec_time_candidate(
                tps[i],
                cur,
            )) is None by {
                if i < last {
                    assert(init[i] == tps[i]);
                }
            }
        }
        if let Some(t) = spec_min_time(tps, cur) {
            if spec_time_candidate(tps[last], cur) == Some(t) {
                assert(spec_time_candidate(tps[last], cur) == Some(t));
            } else {
                let i = choose|i: int| 0 <= i < init.len() && #[trigger] spec_time_candidate(init[i], cur) == Some(t);
                assert(spec_time_candidate(tps[i], cur) == Some(t));
            }
            assert forall|i: int|
                0 <= i < tps.len() && (#[trigger] spec_time_candidate(tps[i], cur)) is Some implies t.secs
                <= spec_time_candidate(tps[i], cur).unwrap().secs by {
                if i < last {
                    assert(init[i] == tps[i]);
                    assert(spec_time_candidate(init[i], cur) is Some);
                }
            }
        }
    }
}

/// Whether a time pattern names the time of day `x` (seconds since midnight): a point
/// names its time; a range names its start (midnight where it has none) and every step
/// after it, within the day and up to its end where it has one.
pub open spec fn names_time(tp: TimePattern, x: int) -> bool {
    match tp {
        TimePattern::Point(t) => x == t.secs,
        TimePattern::Range(r) => {
            let f = match r.from {
                Some(t) => t.secs as int,
                None => 0,
            };
            let step = r.interval.hours * 3600 + r.interval.minutes * 60 + r.interval.seconds;
            &&& f <= x < 86400
            &&& (x - f) % step == 0
            &&& (r.until matches Some(u) ==> x <= u.secs)
        },
    }
}

/// The time a pattern names next after `cur` is the first one it names: one that it names,
/// after `cur`, with none it names in between; there is none exactly where it names no
/// time after `cur` within the day. (A range is taken to end no earlier than it starts, as
/// the texts read have it, and to step by less than a day.)
pub proof fn law_time_candidate_is_first_named(tp: TimePattern, cur: TimeOfDay)
    requires
        tp.wf(),
        cur.wf(),
        tp matches TimePattern::Range(r) ==> r.interval.total_secs() < 86400 && (r.until matches Some(
            u,
        ) ==> range_start(r).secs <= u.secs),
    ensures
        spec_time_candidate(tp, cur) matches Some(c) ==> cur.secs < c.secs && names_time(tp, c.secs as int)
            && forall|x: int| cur.secs < x < c.secs ==> !#[trigger] names_time(tp, x),
        spec_time_candidate(tp, cur) is None ==> forall|x: int|
            cur.secs < x < 86400 ==> !#[trigger] names_time(tp, x),
{
    match tp {
        TimePattern::Point(t) => {
            if let Some(c) = spec_time_candidate(tp, cur) {
                assert(c == t);
                assert(names_time(tp, c.secs as int));
                assert forall|x: int| cur.secs < x < c.secs implies !#[trigger] names_time(tp, x) by {}
            } else {
                assert forall|x: int| cur.secs < x < 86400 implies !#[trigger] names_time(tp, x) by {}
            }
        },
        TimePattern::Range(r) => {
            let f: int = range_start(r).secs as int;
            let step: int = r.interval.total_secs();
            let c: int = cur.secs as int;
            assert(step == r.interval.hours * 3600 + r.interval.minutes * 60 + r.interval.seconds);
            assert(f == (match r.from {
                Some(t) => t.secs as int,
                None => 0,
            }));
            if f > c {
                // the start itself comes first
                assert forall|x: int| c < x < f implies !#[trigger] names_time(tp, x) by {}
                if let Some(u) = r.until {
                    if u.secs <= c {
                        assert forall|x: int| c < x < 86400 implies !#[trigger] names_time(tp, x) by {}
                    }
                }
                vstd::arithmetic::div_mod::lemma_small_mod(0nat, step as nat);
            } else {
                let q = (c - f) / step;
                vstd::arithmetic::div_mod::lemma_fundamental_div_mod(c - f, step);
                vstd::arithmetic::div_mod::lemma_mod_bound(c - f, step);
                let k = q + 1;
                let y = f + k * step;
                assert(y == f + q * step + step) by (nonlinear_arith)
                    requires
                        y == f + k * step,
                        k == q + 1,
                ;
                assert(c < y <= c + step) by (nonlinear_arith)
                    requires
                        c - f == step * q + (c - f) % step,
                        0 <= (c - f) % step < step,
                        y == f + q * step + step,
                ;
                assert(q >= 0) by (nonlinear_arith)
                    requires
                        c - f >= 0,
                        step > 0,
                        q == (c - f) / step,
                ;
                // every named time after `cur` is `y` or later
                assert forall|x: int| c < x < y implies !#[trigger] names_time(tp, x) by {
                    if names_time(tp, x) {
                        let j = (x - f) / step;
                        vstd::arithmetic::div_mod::lemma_fundamental_div_mod(x - f, step);
                        assert(x == f + step * j) by (nonlinear_arith)
                            requires
                                x - f == step * j + (x - f) % step,
                                (x - f) % step == 0,
                        ;
                        assert(false) by (nonlinear_arith)
                            requires
                                x == f + step * j,
                                c < x < y,
                                y == f + q * step + step,
                                f + q * step <= c,
                                step > 0,
                        ;
                    }
                }
                assert(f + q * step <= c) by (nonlinear_arith)
                    requires
                        c - f == step * q + (c - f) % step,
                        0 <= (c - f) % step,
                ;
                // `y` is named where it is within the day and the range
                assert((y - f) % step == 0) by {
                    vstd::arithmetic::div_mod::lemma_mod_multiples_basic(k, step);
                    assert(y - f == k * step);
                }
                let n = spec_time_add_wrapping(range_start(r), k * step);
                if y < 86400 {
                    vstd::arithmetic::div_mod::lemma_small_mod(y as nat, 86400nat);
                    assert(n.secs == y);
                } else {
                    // the step wraps past midnight: nothing is named after `cur` that day
                    assert(y - 86400 < c);
                    vstd::arithmetic::div_mod::lemma_fundamental_div_mod_converse(y, 86400, 1, y - 86400);
                    assert(n.secs == y - 86400);
                    assert forall|x: int| c < x < 86400 implies !#[trigger] names_time(tp, x) by {
                        if x >= y {
                        }
                    }
                }
                if let Some(u) = r.until {
                    if u.secs <= c {
                        assert forall|x: int| c < x < 86400 implies !#[trigger] names_time(tp, x) by {}
                    } else if y > u.secs {
                        assert forall|x: int| c < x < 86400 implies !#[trigger] names_time(tp, x) by {
                            if x >= y {
                            }
                        }
                    }
                }
            }
        },
    }
}

/// Once a recurrence has begun (its first date is not after `cur`'s), where some time
/// pattern names a time still to come on `cur`'s day, the recurrence is next due that day,
/// at the earliest of those times: at a time one pattern names after `cur`, and no later
/// than any time a pattern names after `cur`.
pub proof fn law_next_is_earliest_time_today(
    dates: Seq<DatePattern>,
    times: Seq<TimePattern>,
    cur: DateTime,
    k: int,
)
    requires
        dates.len() > 0,
        !date_lt(cur.date, date_pattern_first(dates[0])),
        0 <= k < times.len(),
        spec_time_candidate(times[k], cur.time) is Some,
    ensures
        spec_next(dates, times, cur) matches Some(n) && n.date == cur.date && cur.time.secs
            < n.time.secs && (exists|j: int|
            0 <= j < times.len() && #[trigger] spec_time_candidate(times[j], cur.time) == Some(
                n.time,
            )) && (forall|j: int|
            0 <= j < times.len() && (#[trigger] spec_time_candidate(times[j], cur.time)) is Some
                ==> n.time.secs <= spec_time_candidate(times[j], cur.time).unwrap().secs),
{
    lemma_min_time(times, cur.time);
    let t = spec_min_time(times, cur.time).unwrap();
    let j = choose|j: int| 0 <= j < times.len() && #[trigger] spec_time_candidate(times[j], cur.time) == Some(t);
    lemma_time_candidate_after(times[j], cur.time);
}

/// Once a recurrence has begun, where one of its time patterns names a time of day still
/// to come on `cur`'s day, the recurrence is next due that day, no later than that time,
/// at a time one of its patterns names, and no pattern names a time in between: no time
/// is skipped. (Its ranges are taken to end no earlier than they start and to step by
/// less than a day.)
pub proof fn law_next_skips_no_named_time(
    dates: Seq<DatePattern>,
    times: Seq<TimePattern>,
    cur: DateTime,
    k: int,
    x0: int,
)
    requires
        dates.len() > 0,
        !date_lt(cur.date, date_pattern_first(dates[0])),
        cur.wf(),
        forall|i: int|
            0 <= i < times.len() ==> (#[trigger] times[i]).wf() && (times[i] matches TimePattern::Range(
                r,
            ) ==> r.interval.total_secs() < 86400 && (r.until matches Some(u) ==> range_start(
                r,
            ).secs <= u.secs)),
        0 <= k < times.len(),
        cur.time.secs < x0 < 86400,
        names_time(times[k], x0),
    ensures
        spec_next(dates, times, cur) matches Some(n) && n.date == cur.date && cur.time.secs
            < n.time.secs <= x0 && (exists|j: int|
            0 <= j < times.len() && #[trigger] names_time(times[j], n.time.secs as int)) && (forall|
            j: int,
            x: int,
        | 0 <= j < times.len() && cur.time.secs < x < n.time.secs ==> !#[trigger] names_time(
            times[j],
            x,
        )),
{
    assert(times[k].wf());
    law_time_candidate_is_first_named(times[k], cur.time);
    law_next_is_earliest_time_today(dates, times, cur, k);
    let n = spec_next(dates, times, cur).unwrap();
    let j = choose|j: int| 0 <= j < times.len() && #[trigger] spec_time_candidate(times[j], cur.time) == Some(n.time);
    assert(times[j].wf());
    law_time_candidate_is_first_named(times[j], cur.time);
    assert(names_time(times[j], n.time.secs as int));
    assert forall|i: int, x: int|
        0 <= i < times.len() && cur.time.secs < x < n.time.secs implies !#[trigger] names_time(
        times[i],
        x,
    ) by {
        assert(times[i].wf());
        law_time_candidate_is_first_named(times[i], cur.time);
        if names_time(times[i], x) {
            assert(spec_time_candidate(times[i], cur.time) is Some);
        }
    }
}

/// The earliest of the dates the patterns name after `cur` is one of them, and none of
/// them comes before it; there is none exactly where no pattern names a date after `cur`.
pub proof fn lemma_min_date(dps: Seq<DatePattern>, cur: Date)
    ensures
        spec_min_date(dps, cur) is None <==> forall|i: int|
            0 <= i < dps.len() ==> (#[trigger] spec_date_candidate(dps[i], cur)) is None,
        spec_min_date(dps, cur) matches Some(d) ==> (exists|i: int|
            0 <= i < dps.len() && #[trigger] spec_date_candidate(dps[i], cur) == Some(d)) && (
        forall|i: int|
            0 <= i < dps.len() && (#[trigger] spec_date_candidate(dps[i], cur)) is Some ==> !date_lt(
                spec_date_candidate(dps[i], cur).unwrap(),
                d,
            )),
    decreases dps.len(),
{
    if dps.len() > 0 {
        let init = dps.drop_last();
        lemma_min_date(init, cur);
        let last = dps.len() - 1;
        assert(dps[last] == dps.last());
        if spec_min_date(dps, cur) is None {
            assert forall|i: int| 0 <= i < dps.len() implies (#[trigger] spec_date_candidate(
                dps[i],
                cur,
            )) is None by {
                if i < last {
                    assert(init[i] == dps[i]);
                }
            }
        }
        if let Some(d) = spec_min_date(dps, cur) {
            if spec_date_candidate(dps[last], cur) == Some(d) {
                assert(spec_date_candidate(dps[last], cur) == Some(d));
            } else {
                let i = choose|i: int| 0 <= i < init.len() && #[trigger] spec_date_candidate(init[i], cur) == Some(d);
                assert(spec_date_candidate(dps[i], cur) == Some(d));
            }
            assert forall|i: int|
                0 <= i < dps.len() && (#[trigger] spec_date_candidate(dps[i], cur)) is Some implies !date_lt(
                spec_date_candidate(dps[i], cur).unwrap(),
                d,
            ) by {
                if i < last {
                    assert(init[i] == dps[i]);
                    assert(spec_date_candidate(init[i], cur) is Some);
                }
                let c = spec_date_candidate(dps[i], cur).unwrap();
                crate::calendar::lemma_date_order_total(c, d);
                if let (Some(x), Some(y)) = (spec_min_date(init, cur), spec_date_candidate(dps[last], cur)) {
                    crate::calendar::lemma_date_order_total(x, y);
                }
            }
        }
    }
}

/// Once a recurrence has begun and none of its times is still to come on `cur`'s day, it
/// is next due on the earliest of the later dates its date patterns name, at its first
/// time: on a date one of them names after `cur`'s, and none names an earlier one.
pub proof fn law_next_is_earliest_later_date(
    dates: Seq<DatePattern>,
    times: Seq<TimePattern>,
    cur: DateTime,
    k: int,
)
    requires
        dates.len() > 0,
        !date_lt(cur.date, date_pattern_first(dates[0])),
        forall|i: int| 0 <= i < times.len() ==> (#[trigger] spec_time_candidate(times[i], cur.time)) is None,
        0 <= k < dates.len(),
        spec_date_candidate(dates[k], cur.date) is Some,
    ensures
        spec_next(dates, times, cur) matches Some(n) && n.time == spec_first_time(times, cur) && (
        exists|j: int|
            0 <= j < dates.len() && #[trigger] spec_date_candidate(dates[j], cur.date) == Some(
                n.date,
            )) && (forall|j: int|
            0 <= j < dates.len() && (#[trigger] spec_date_candidate(dates[j], cur.date)) is Some
                ==> !date_lt(spec_date_candidate(dates[j], cur.date).unwrap(), n.date)),
{
    lemma_min_time(times, cur.time);
    lemma_min_date(dates, cur.date);
}

/// A time a pattern names after `cur` is after `cur`.
pub proof fn lemma_time_candidate_after(tp: TimePattern, cur: TimeOfDay)
    ensures
        spec_time_candidate(tp, cur) matches Some(t) ==> cur.secs < t.secs,
{
}

fn time_candidate(tp: &TimePattern, cur: TimeOfDay) -> (r: Option<TimeOfDay>)
    requires
        tp.wf(),
        cur.wf(),
    ensures
        r == spec_time_candidate(*tp, cur),
        r matches Some(t) ==> t.wf() && t.secs > cur.secs,
{
    match tp {
        TimePattern::Point(t) => if t.secs > cur.secs {
            Some(*t)
        } else {
            None
        },
        TimePattern::Range(range) => {
            match range.until {
                Some(u) => {
                    if u.secs <= cur.secs {
                        return None;
                    }
                },
                None => {},
            }
            let from = match range.from {
                Some(f) => f,
                None => TimeOfDay { secs: 0 },
            };
            if from.secs > cur.secs {
                return Some(from);
            }
            let step: i64 = range.interval.hours as i64 * 3600 + range.interval.minutes as i64 * 60
                + range.interval.seconds as i64;
            let diff: i64 = (cur.secs - from.secs) as i64;
            let q: i64 = diff / step;
            assert(q * step <= diff && q >= 0) by (nonlinear_arith)
                requires
                    q == diff / step,
                    diff >= 0,
                    step > 0,
            ;
            assert((q + 1) * step == q * step + step) by (nonlinear_arith);
            let k: i64 = (q + 1) * step;
            let n = time_add_wrapping(from, k);
            let in_range = match range.until {
                Some(u) => n.secs <= u.secs,
                None => true,
            };
            if n.secs > cur.secs && in_range {
                Some(n)
            } else {
                None
            }
        },
    }
}

fn min_time_opt_exec(a: Option<TimeOfDay>, b: Option<TimeOfDay>) -> (r: Option<TimeOfDay>)
    ensures
        r == min_time_opt(a, b),
{
    match (a, b) {
        (None, _) => b,
        (_, None) => a,
        (Some(x), Some(y)) => if y.secs < x.secs {
            b
        } else {
            a
        },
    }
}

fn min_date_opt_exec(a: Option<Date>, b: Option<Date>) -> (r: Option<Date>)
    ensures
        r == min_date_opt(a, b),
{
    match (a, b) {
        (None, _) => b,
        (_, None) => a,
        (Some(x), Some(y)) => if date_lt_exec(&y, &x) {
            b
        } else {
            a
        },
    }
}

fn step_past(from: &Date, interval: &DateInterval, cur: &Date) -> (r: Option<Date>)
    requires
        from.wf(),
        cur.wf(),
    ensures
        r == spec_step_past(*from, *interval, *cur),
        r matches Some(d) ==> d.wf() && date_lt(*cur, d),
{
    let mut f = *from;
    loop
        invariant
            f.wf(),
            cur.wf(),
            spec_step_past(*from, *interval, *cur) == spec_step_past(f, *interval, *cur),
        decreases date_code(*cur) - date_code(f),
    {
        if date_lt_exec(cur, &f) {
            return Some(f);
        }
        let n = match add_date_interval(&f, interval) {
            Some(n) => n,
            None => {
                return None;
            },
        };
        if !date_lt_exec(&f, &n) {
            return None;
        }
        if date_lt_exec(cur, &n) {
            return Some(n);
        }
        proof {
            lemma_date_code_order(f, n);
            lemma_date_code_order(n, *cur);
        }
        f = n;
    }
}

fn date_candidate(dp: &DatePattern, cur: &Date) -> (r: Option<Date>)
    requires
        dp.wf(),
        cur.wf(),
    ensures
        r == spec_date_candidate(*dp, *cur),
        r matches Some(d) ==> d.wf() && date_lt(*cur, d),
{
    match dp {
        DatePattern::Point(d) => if date_lt_exec(cur, d) {
            Some(*d)
        } else {
            None
        },
        DatePattern::Range(range) => {
            match range.until {
                Some(u) => {
                    if !date_lt_exec(cur, &u) {
                        return None;
                    }
                },
                None => {},
            }
            if date_lt_exec(cur, &range.from) {
                return Some(range.from);
            }
            let next = match range.date_divisor {
                DateDivisor::Weekdays(w) => {
                    let nums = w.to_day_numbers();
                    proof {
                        lemma_day_numbers_nonempty(w);
                    }
                    match numbers_from_vec(nums) {
                        None => None,
                        Some(ne) => match date_add_days(cur, 1) {
                            Some(c1) => find_nearest_weekday(&c1, &ne),
                            None => None,
                        },
                    }
                },
                DateDivisor::Interval(interval) => step_past(&range.from, &interval, cur),
            };
            match next {
                Some(n) => {
                    let in_range = match range.until {
                        Some(u) => date_le_exec(&n, &u),
                        None => true,
                    };
                    if in_range {
                        Some(n)
                    } else {
                        None
                    }
                },
                None => None,
            }
        },
    }
}

impl Recurrence {
    /// When the recurrence is next due after `cur`; the result is always later than `cur`.
    pub fn next(&self, cur: &DateTime) -> (r: Option<DateTime>)
        requires
            self.wf(),
            cur.wf(),
        ensures
            r == spec_next(self.dates_patterns@, self.time_patterns@, *cur),
            r matches Some(n) ==> n.wf() && datetime_lt(*cur, n),
    {
        if self.dates_patterns.len() == 0 {
            return None;
        }
        assert(self.dates_patterns@[0].wf());
        let first_date = match self.dates_patterns[0] {
            DatePattern::Point(d) => d,
            DatePattern::Range(range) => range.from,
        };
        let first_time = if self.time_patterns.len() == 0 {
            cur.time
        } else {
            assert(self.time_patterns@[0].wf());
            match self.time_patterns[0] {
                TimePattern::Point(t) => t,
                TimePattern::Range(range) => match range.from {
                    Some(f) => f,
                    None => TimeOfDay { secs: 0 },
                },
            }
        };
        if date_lt_exec(&cur.date, &first_date) {
            return Some(DateTime { date: first_date, time: first_time });
        }
        let ghost times = self.time_patterns@;
        let mut best: Option<TimeOfDay> = None;
        let mut i: usize = 0;
        while i < self.time_patterns.len()
            invariant
                self.wf(),
                cur.wf(),
                times == self.time_patterns@,
                i <= times.len(),
                best == spec_min_time(times.subrange(0, i as int), cur.time),
                best matches Some(t) ==> t.wf() && t.secs > cur.time.secs,
            decreases times.len() - i,
        {
            assert(times[i as int].wf());
            let cand = time_candidate(&self.time_patterns[i], cur.time);
            assert(times.subrange(0, i + 1).drop_last() =~= times.subrange(0, i as int));
            best = min_time_opt_exec(best, cand);
            i += 1;
        }
        assert(times.subrange(0, times.len() as int) =~= times);
        if let Some(t) = best {
            return Some(DateTime { date: cur.date, time: t });
        }
        let ghost dates = self.dates_patterns@;
        let mut best_date: Option<Date> = None;
        let mut j: usize = 0;
        while j < self.dates_patterns.len()
            invariant
                self.wf(),
                cur.wf(),
                dates == self.dates_patterns@,
                j <= dates.len(),
                best_date == spec_min_date(dates.subrange(0, j as int), cur.date),
                best_date matches Some(d) ==> d.wf() && date_lt(cur.date, d),
            decreases dates.len() - j,
        {
            assert(dates[j as int].wf());
            let cand = date_candidate(&self.dates_patterns[j], &cur.date);
            assert(dates.subrange(0, j + 1).drop_last() =~= dates.subrange(0, j as int));
            best_date = min_date_opt_exec(best_date, cand);
            j += 1;
        }
        assert(dates.subrange(0, dates.len() as int) =~= dates);
        match best_date {
            Some(d) => Some(DateTime { date: d, time: first_time }),
            None => None,
        }
    }
}

// ---------------------------------------------------------------------------
// countdowns, periods and patterns

pub open spec fn spec_interval_from(i: grammar::Interval) -> Interval {
    Interval {
        years: i.years,
        months: i.months,
        weeks: i.weeks,
        days: i.days,
        hours: i.hours,
        minutes: i.minutes,
        seconds: i.seconds,
    }
}

/// A countdown after `cur`, and the countdown as it is left: it is due once, after its
/// duration, and never again.
pub open spec fn spec_countdown_next(c: Countdown, cur: DateTime) -> (Countdown, Option<DateTime>) {
    if c.used {
        (c, None)
    } else {
        (Countdown { duration: c.duration, used: true }, spec_add_interval(cur, c.duration))
    }
}

impl Countdown {
    /// The countdown that a text names. The stored form holds one duration: a text that
    /// names several has none.
    pub fn from_grammar(countdown: grammar::Countdown) -> (r: Option<Countdown>)
        ensures
            r is Some <==> countdown.durations@.len() == 1,
            r matches Some(c) ==> c == (Countdown {
                duration: spec_interval_from(countdown.durations@[0]),
                used: false,
            }),
    {
        if countdown.durations.len() == 1 {
            Some(Countdown { duration: Interval::from_grammar(countdown.durations[0]), used: false })
        } else {
            None
        }
    }

    /// When the countdown is due after `cur`: its duration after `cur` the first time it is
    /// asked, never after that.
    pub fn next(&mut self, cur: &DateTime) -> (r: Option<DateTime>)
        requires
            cur.wf(),
        ensures
            (*final(self), r) == spec_countdown_next(*old(self), *cur),
            r matches Some(n) ==> n.wf(),
    {
        if self.used {
            None
        } else {
            self.used = true;
            add_interval(cur, &self.duration)
        }
    }
}

impl Period {
    /// When the period is next due after `cur`: its duration after `cur`.
    pub fn next(&self, cur: &DateTime) -> (r: Option<DateTime>)
        requires
            cur.wf(),
        ensures
            r == spec_add_interval(*cur, self.duration),
            r matches Some(n) ==> n.wf(),
    {
        add_interval(cur, &self.duration)
    }
}

impl Pattern {
    pub open spec fn wf(self) -> bool {
        match self {
            Pattern::Recurrence(r) => r.wf(),
            _ => true,
        }
    }

    /// Whether `self` is the stored form of `rp` made at time `now`.
    pub open spec fn is_from(self, rp: grammar::ReminderPattern, now: DateTime) -> bool {
        match rp {
            grammar::ReminderPattern::Recurrence(rec) => self matches Pattern::Recurrence(r)
                && spec_from_holey(rec, now) == Some((r.dates_patterns@, r.time_patterns@)),
            grammar::ReminderPattern::Countdown(c) => c.durations@.len() == 1 && self
                == Pattern::Countdown(
                Countdown { duration: spec_interval_from(c.durations@[0]), used: false },
            ),
            grammar::ReminderPattern::Cron(_) => false,
        }
    }

    /// Whether a reminder pattern has a stored form made at time `now`.
    pub open spec fn has_form(rp: grammar::ReminderPattern, now: DateTime) -> bool {
        match rp {
            grammar::ReminderPattern::Recurrence(rec) => spec_from_holey(rec, now) is Some,
            grammar::ReminderPattern::Countdown(c) => c.durations@.len() == 1,
            grammar::ReminderPattern::Cron(_) => false,
        }
    }

    /// The stored form of a reminder pattern, its dates filled in from `now`. A cron
    /// expression has no stored form here.
    pub fn from_with_now(reminder_pattern: grammar::ReminderPattern, now: &DateTime) -> (r: Result<
        Pattern,
        (),
    >)
        requires
            reminder_pattern.wf(),
            now.wf(),
        ensures
            r is Ok <==> Pattern::has_form(reminder_pattern, *now),
            r matches Ok(p) ==> p.is_from(reminder_pattern, *now) && p.wf(),
    {
        match reminder_pattern {
            grammar::ReminderPattern::Recurrence(recurrence) => {
                match Recurrence::from_holey(recurrence, now) {
                    Ok(r) => Ok(Pattern::Recurrence(r)),
                    Err(()) => Err(()),
                }
            },
            grammar::ReminderPattern::Countdown(countdown) => {
                match Countdown::from_grammar(countdown) {
                    Some(c) => Ok(Pattern::Countdown(c)),
                    None => Err(()),
                }
            },
            grammar::ReminderPattern::Cron(_) => Err(()),
        }
    }

    /// The stored form of a reminder pattern, its dates filled in from the current time in
    /// the user's timezone `tz` (`now_utc` is the current time in UTC); none where that
    /// time cannot be told there.
    pub fn from_with_tz(reminder_pattern: grammar::ReminderPattern, tz: &str, now_utc: &DateTime) -> (r:
        Result<Pattern, ()>)
        requires
            reminder_pattern.wf(),
        ensures
            match spec_local_time(tz@, *now_utc) {
                Some(now) => (r is Ok <==> Pattern::has_form(reminder_pattern, now)) && (r matches Ok(
                    p,
                ) ==> p.is_from(reminder_pattern, now) && p.wf()),
                None => r is Err,
            },
    {
        match local_time(tz, now_utc) {
            Some(now) => Pattern::from_with_now(reminder_pattern, &now),
            None => Err(()),
        }
    }

    /// The next time after `cur` that the pattern is due at, and the pattern as it is left.
    pub open spec fn spec_step(self, cur: DateTime) -> (Pattern, Option<DateTime>) {
        match self {
            Pattern::Recurrence(r) => (self, spec_next(r.dates_patterns@, r.time_patterns@, cur)),
            Pattern::Countdown(c) => {
                let (c2, t) = spec_countdown_next(c, cur);
                (Pattern::Countdown(c2), t)
            },
            Pattern::Period(p) => (self, spec_add_interval(cur, p.duration)),
        }
    }

    /// When the pattern is next due after `cur`.
    pub fn next(&mut self, cur: &DateTime) -> (r: Option<DateTime>)
        requires
            old(self).wf(),
            cur.wf(),
        ensures
            (*final(self), r) == old(self).spec_step(*cur),
            final(self).wf(),
            r matches Some(n) ==> n.wf(),
            *old(self) is Recurrence && r is Some ==> datetime_lt(*cur, r.unwrap()),
    {
        match self {
            Pattern::Recurrence(recurrence) => recurrence.next(cur),
            Pattern::Countdown(countdown) => countdown.next(cur),
            Pattern::Period(period) => period.next(cur),
        }
    }
}

/// A countdown is due once: once it has been asked when it is due, it is never due again.
pub proof fn law_countdown_fires_once(c: Countdown, first: DateTime, later: DateTime)
    ensures
        spec_countdown_next(spec_countdown_next(c, first).0, later).1 is None,
{
}


impl DatePattern {
    /// Whether the stored date pattern holds valid dates and, for weekdays, at least one day.
    pub fn is_valid(&self) -> (r: bool)
        ensures
            r == self.wf(),
    {
        match self {
            DatePattern::Point(d) => d.is_valid(),
            DatePattern::Range(r) => {
                r.from.is_valid() && match r.until {
                    Some(u) => u.is_valid(),
                    None => true,
                } && match r.date_divisor {
                    DateDivisor::Weekdays(w) => w.bits & 0x7fu8 != 0,
                    DateDivisor::Interval(_) => true,
                }
            },
        }
    }
}

impl TimePattern {
    /// Whether the stored time pattern holds times within a day and a step that is not zero.
    pub fn is_valid(&self) -> (r: bool)
        ensures
            r == self.wf(),
    {
        match self {
            TimePattern::Point(t) => t.secs < SECS_PER_DAY,
            TimePattern::Range(r) => {
                (match r.from {
                    Some(t) => t.secs < SECS_PER_DAY,
                    None => true,
                }) && (match r.until {
                    Some(t) => t.secs < SECS_PER_DAY,
                    None => true,
                }) && (r.interval.hours > 0 || r.interval.minutes > 0 || r.interval.seconds > 0)
            },
        }
    }
}

impl Pattern {
    /// Whether a stored pattern (read back from the database) is one the library works with.
    #[verifier::loop_isolation(false)]
    pub fn is_valid(&self) -> (r: bool)
        ensures
            r == self.wf(),
    {
        match self {
            Pattern::Recurrence(rec) => {
                let mut i: usize = 0;
                while i < rec.dates_patterns.len()
                    invariant
                        i <= rec.dates_patterns@.len(),
                        forall|k: int| 0 <= k < i ==> #[trigger] rec.dates_patterns@[k].wf(),
                    decreases rec.dates_patterns@.len() - i,
                {
                    if !rec.dates_patterns[i].is_valid() {
                        assert(!rec.wf());
                        return false;
                    }
                    i += 1;
                }
                let mut j: usize = 0;
                while j < rec.time_patterns.len()
                    invariant
                        j <= rec.time_patterns@.len(),
                        forall|k: int| 0 <= k < rec.dates_patterns@.len() ==> #[trigger] rec.dates_patterns@[k].wf(),
                        forall|k: int| 0 <= k < j ==> #[trigger] rec.time_patterns@[k].wf(),
                    decreases rec.time_patterns@.len() - j,
                {
                    if !rec.time_patterns[j].is_valid() {
                        assert(!rec.wf());
                        return false;
                    }
                    j += 1;
                }
                true
            },
            _ => true,
        }
    }
}

} // verus!
