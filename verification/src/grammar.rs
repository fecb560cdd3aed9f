//! What a reminder's text says, as the reminder grammar reads it:
//! dates with holes, times, intervals, weekdays, countdowns and cron expressions.
use vstd::prelude::*;

use crate::collections::{date_patterns_of, dates_len, dates_new, dates_push, dates_split, dates_from_vec};
use nonempty::NonEmpty;

pub use crate::syntax::parse_reminder;

verus! {

/// A date whose year, month or day may be left out.
#[derive(Clone, Copy, PartialEq, Eq, Structural, Debug)]
pub struct HoleyDate {
    pub year: Option<i32>,
    pub month: Option<u32>,
    pub day: Option<u32>,
}

impl Default for HoleyDate {
    fn default() -> (r: HoleyDate)
        ensures
            r == (HoleyDate { year: None, month: None, day: None }),
    {
        HoleyDate { year: None, month: None, day: None }
    }
}

#[derive(Clone, Copy, PartialEq, Eq, Structural, Debug)]
pub struct Interval {
    pub years: i32,
    pub months: u32,
    pub weeks: u32,
    pub days: u32,
    pub hours: u32,
    pub minutes: u32,
    pub seconds: u32,
}

impl Default for Interval {
    fn default() -> (r: Interval)
        ensures
            r == (Interval {
                years: 0,
                months: 0,
                weeks: 0,
                days: 0,
                hours: 0,
                minutes: 0,
                seconds: 0,
            }),
    {
        Interval { years: 0, months: 0, weeks: 0, days: 0, hours: 0, minutes: 0, seconds: 0 }
    }
}

#[derive(Clone, Copy, PartialEq, Eq, Structural, Debug)]
pub enum Weekday {
    Monday,
    Tuesday,
    Wednesday,
    Thursday,
    Friday,
    Saturday,
    Sunday,
}

impl Weekday {
    /// The day's number, counted from Monday (0).
    pub open spec fn index(self) -> nat {
        match self {
            Weekday::Monday => 0,
            Weekday::Tuesday => 1,
            Weekday::Wednesday => 2,
            Weekday::Thursday => 3,
            Weekday::Friday => 4,
            Weekday::Saturday => 5,
            Weekday::Sunday => 6,
        }
    }

    /// The day after this one; Monday comes after Sunday.
    pub fn next(&self) -> (r: Weekday)
        ensures
            r.index() == (self.index() + 1) % 7,
    {
        match *self {
            Weekday::Monday => Weekday::Tuesday,
            Weekday::Tuesday => Weekday::Wednesday,
            Weekday::Wednesday => Weekday::Thursday,
            Weekday::Thursday => Weekday::Friday,
            Weekday::Friday => Weekday::Saturday,
            Weekday::Saturday => Weekday::Sunday,
            Weekday::Sunday => Weekday::Monday,
        }
    }

    pub fn index_exec(&self) -> (r: u32)
        ensures
            r == self.index(),
    {
        match *self {
            Weekday::Monday => 0,
            Weekday::Tuesday => 1,
            Weekday::Wednesday => 2,
            Weekday::Thursday => 3,
            Weekday::Friday => 4,
            Weekday::Saturday => 5,
            Weekday::Sunday => 6,
        }
    }
}

pub proof fn lemma_weekday_index_injective(a: Weekday, b: Weekday)
    ensures
        a.index() == b.index() <==> a == b,
        a.index() < 7,
{
}

/// A set of days of the week, one bit per day from Monday (lowest) to Sunday.
#[derive(Clone, Copy, PartialEq, Eq, Structural, Debug)]
pub struct Weekdays {
    pub bits: u8,
}

/// Whether the bits hold day `i`.
pub open spec fn bits_has(bits: u8, i: nat) -> bool {
    i < 7 && (bits >> (i as u8)) & 1u8 == 1u8
}

pub proof fn lemma_bits_or(a: u8, b: u8, i: u8)
    requires
        i < 8,
    ensures
        ((a | b) >> i) & 1u8 == 1u8 <==> ((a >> i) & 1u8 == 1u8 || (b >> i) & 1u8 == 1u8),
{
    assert(((a | b) >> i) & 1u8 == 1u8 <==> ((a >> i) & 1u8 == 1u8 || (b >> i) & 1u8 == 1u8))
        by (bit_vector)
        requires
            i < 8,
    ;
}

pub proof fn lemma_bit_of(i: u8, j: u8)
    requires
        i < 8,
        j < 8,
    ensures
        ((1u8 << i) >> j) & 1u8 == 1u8 <==> i == j,
{
    assert(((1u8 << i) >> j) & 1u8 == 1u8 <==> i == j) by (bit_vector)
        requires
            i < 8,
            j < 8,
    ;
}

/// The bit of day `i` (counted from Monday, round the week).
pub open spec fn day_bit(i: nat) -> u8 {
    1u8 << ((i % 7) as u8)
}

/// The bits of `n` days in a row, from day `from` on.
pub open spec fn span_bits(from: nat, n: nat) -> u8
    decreases n,
{
    if n == 0 {
        0
    } else {
        span_bits(from, (n - 1) as nat) | day_bit((from + n - 1) as nat)
    }
}

/// How many days after `from` the range ends: at `to`, or at `from` itself.
pub open spec fn range_span(from: Weekday, to: Option<Weekday>) -> nat {
    match to {
        Some(t) => ((t.index() + 7 - from.index()) % 7) as nat,
        None => 0,
    }
}

impl Weekdays {
    pub open spec fn has(self, i: nat) -> bool {
        bits_has(self.bits, i)
    }

    /// The empty set.
    pub fn none() -> (r: Weekdays)
        ensures
            r.bits == 0,
            forall|i: nat| !r.has(i),
    {
        let r = Weekdays { bits: 0 };
        assert forall|i: nat| !r.has(i) by {
            if i < 7 {
                let k = i as u8;
                assert((0u8 >> k) & 1u8 == 0u8) by (bit_vector);
            }
        }
        r
    }

    /// The set of one day.
    pub fn single(w: Weekday) -> (r: Weekdays)
        ensures
            r.bits == day_bit(w.index()),
            forall|i: nat| r.has(i) <==> i == w.index(),
    {
        let k = w.index_exec() as u8;
        let r = Weekdays { bits: 1u8 << k };
        assert forall|i: nat| r.has(i) <==> i == w.index() by {
            if i < 7 {
                lemma_bit_of(k, i as u8);
            }
        }
        r
    }

    /// The days of both sets.
    pub fn union(self, other: Weekdays) -> (r: Weekdays)
        ensures
            r.bits == self.bits | other.bits,
            forall|i: nat| r.has(i) <==> (self.has(i) || other.has(i)),
    {
        let r = Weekdays { bits: self.bits | other.bits };
        assert forall|i: nat| r.has(i) <==> (self.has(i) || other.has(i)) by {
            if i < 7 {
                lemma_bits_or(self.bits, other.bits, i as u8);
            }
        }
        r
    }

    /// Adds one day to the set.
    pub fn push(&mut self, w: Weekday)
        ensures
            final(self).bits == old(self).bits | day_bit(w.index()),
            forall|i: nat| final(self).has(i) <==> (old(self).has(i) || i == w.index()),
    {
        *self = self.union(Weekdays::single(w));
    }

    /// Whether the set holds day `i` (Monday is 0).
    pub fn contains_day(self, i: u32) -> (r: bool)
        requires
            i < 7,
        ensures
            r == self.has(i as nat),
    {
        (self.bits >> (i as u8)) & 1u8 == 1u8
    }

    /// The days from `from` to `to`, both included, going round the week from Monday
    /// after Sunday; a range of one day where `to` is left out.
    pub fn from_range(from: Weekday, to: Option<Weekday>) -> (r: Weekdays)
        ensures
            r.bits == span_bits(from.index(), range_span(from, to) + 1),
            forall|i: nat| #[trigger]
                r.has(i) <==> (i < 7 && (i + 7 - from.index()) % 7 <= (match to {
                    Some(t) => (t.index() + 7 - from.index()) % 7,
                    None => 0,
                })),
    {
        let mut weekdays = Weekdays::none();
        let to = match to {
            Some(t) => t,
            None => from,
        };
        let ghost span = (to.index() + 7 - from.index()) % 7;
        let mut cur = from;
        let mut k: u32 = 0;
        while cur != to
            invariant
                k <= span,
                span < 7,
                cur.index() == (from.index() + k) % 7,
                span == (to.index() + 7 - from.index()) % 7,
                weekdays.bits == span_bits(from.index(), k as nat),
                forall|i: nat| #[trigger]
                    weekdays.has(i) <==> (i < 7 && (i + 7 - from.index()) % 7 < k),
            decreases span - k,
        {
            proof {
                lemma_weekday_index_injective(cur, to);
                lemma_weekday_index_injective(from, to);
            }
            weekdays.push(cur);
            cur = cur.next();
            k = k + 1;
        }
        proof {
            lemma_weekday_index_injective(cur, to);
            lemma_weekday_index_injective(from, to);
        }
        weekdays.push(cur);
        weekdays
    }
}

#[derive(Clone, Copy, PartialEq, Eq, Structural, Debug)]
pub struct DateInterval {
    pub years: i32,
    pub months: u32,
    pub weeks: u32,
    pub days: u32,
}

impl Default for DateInterval {
    fn default() -> (r: DateInterval)
        ensures
            r == (DateInterval { years: 0, months: 0, weeks: 0, days: 0 }),
    {
        DateInterval { years: 0, months: 0, weeks: 0, days: 0 }
    }
}

#[derive(Clone, Copy, PartialEq, Eq, Structural, Debug)]
pub enum DateDivisor {
    Weekdays(Weekdays),
    Interval(DateInterval),
}

#[derive(Clone, Copy, PartialEq, Eq, Structural, Debug)]
pub struct DateRange {
    pub from: HoleyDate,
    pub until: Option<HoleyDate>,
    pub date_divisor: DateDivisor,
}

impl Default for DateRange {
    /// Every day, from a date left wholly open.
    fn default() -> (r: DateRange)
        ensures
            r == (DateRange {
                from: HoleyDate { year: None, month: None, day: None },
                until: None,
                date_divisor: DateDivisor::Interval(
                    DateInterval { years: 0, months: 0, weeks: 0, days: 1 },
                ),
            }),
    {
        DateRange {
            date_divisor: DateDivisor::Interval(
                DateInterval { years: 0, months: 0, weeks: 0, days: 1 },
            ),
            from: HoleyDate::default(),
            until: None,
        }
    }
}

#[derive(Clone, Copy, PartialEq, Eq, Structural, Debug)]
pub enum DatePattern {
    Point(HoleyDate),
    Range(DateRange),
}

#[derive(Clone, Copy, PartialEq, Eq, Structural, Debug)]
pub struct Time {
    pub hour: u32,
    pub minute: u32,
    pub second: u32,
}

impl Default for Time {
    fn default() -> (r: Time)
        ensures
            r == (Time { hour: 0, minute: 0, second: 0 }),
    {
        Time { hour: 0, minute: 0, second: 0 }
    }
}

#[derive(Clone, Copy, PartialEq, Eq, Structural, Debug)]
pub struct TimeInterval {
    pub hours: u32,
    pub minutes: u32,
    pub seconds: u32,
}

impl TimeInterval {
    pub open spec fn total_secs(self) -> int {
        self.hours * 3600 + self.minutes * 60 + self.seconds
    }
}

impl Default for TimeInterval {
    fn default() -> (r: TimeInterval)
        ensures
            r == (TimeInterval { hours: 0, minutes: 0, seconds: 0 }),
    {
        TimeInterval { hours: 0, minutes: 0, seconds: 0 }
    }
}

#[derive(Clone, Copy, PartialEq, Eq, Structural, Debug)]
pub struct TimeRange {
    pub from: Option<Time>,
    pub until: Option<Time>,
    pub interval: TimeInterval,
}

#[derive(Clone, Copy, PartialEq, Eq, Structural, Debug)]
pub enum TimePattern {
    Point(Time),
    Range(TimeRange),
}

#[derive(Debug)]
pub struct Recurrence {
    pub dates_patterns: NonEmpty<DatePattern>,
    pub time_patterns: Vec<TimePattern>,
}

impl Recurrence {
    /// The date patterns, in order; there is always one at least.
    pub open spec fn dates(self) -> Seq<DatePattern> {
        date_patterns_of(self.dates_patterns)
    }

    /// At least one date pattern, weekday sets that are not empty and time steps that are
    /// not zero, as the grammar reads them.
    pub open spec fn wf(self) -> bool {
        &&& self.dates().len() >= 1
        &&& forall|i: int| 0 <= i < self.dates().len() ==> (#[trigger] self.dates()[i] matches DatePattern::Range(r)
            ==> (r.date_divisor matches DateDivisor::Weekdays(w) ==> w.bits & 0x7fu8 != 0))
        &&& forall|i: int| 0 <= i < self.time_patterns@.len() ==> (#[trigger] self.time_patterns@[i] matches TimePattern::Range(r)
            ==> r.interval.total_secs() > 0)
    }

    /// A recurrence of the current date alone, without times: the date patterns that the
    /// text names are added after this placeholder.
    pub fn placeholder() -> (r: Recurrence)
        ensures
            r.dates() == seq![DatePattern::Point(HoleyDate { year: None, month: None, day: None })],
            r.time_patterns@ == Seq::<TimePattern>::empty(),
            r.wf(),
    {
        Recurrence {
            dates_patterns: dates_new(DatePattern::Point(HoleyDate::default())),
            time_patterns: Vec::new(),
        }
    }

    /// Adds the date patterns and time patterns that a text names, in order, to the
    /// placeholder; where the text names a date pattern, the placeholder is dropped.
    pub fn from_parts(dates: Vec<DatePattern>, times: Vec<TimePattern>) -> (r: Recurrence)
        requires
            forall|i: int| 0 <= i < dates@.len() ==> (#[trigger] dates@[i] matches DatePattern::Range(r)
                ==> (r.date_divisor matches DateDivisor::Weekdays(w) ==> w.bits & 0x7fu8 != 0)),
            forall|i: int| 0 <= i < times@.len() ==> (#[trigger] times@[i] matches TimePattern::Range(r)
                ==> r.interval.total_secs() > 0),
        ensures
            r.wf(),
            r.time_patterns@ == times@,
            dates@.len() == 0 ==> r.dates() == seq![
                DatePattern::Point(HoleyDate { year: None, month: None, day: None }),
            ],
            dates@.len() > 0 ==> r.dates() == dates@,
    {
        let mut recurrence = Recurrence::placeholder();
        let mut i: usize = 0;
        while i < dates.len()
            invariant
                i <= dates@.len(),
                recurrence.dates() == seq![
                    DatePattern::Point(HoleyDate { year: None, month: None, day: None }),
                ] + dates@.subrange(0, i as int),
            decreases dates@.len() - i,
        {
            dates_push(&mut recurrence.dates_patterns, dates[i]);
            proof {
                assert(dates@.subrange(0, i + 1) =~= dates@.subrange(0, i as int).push(dates@[i as int]));
                assert(seq![DatePattern::Point(HoleyDate { year: None, month: None, day: None })]
                    + dates@.subrange(0, i + 1) =~= (seq![
                    DatePattern::Point(HoleyDate { year: None, month: None, day: None }),
                ] + dates@.subrange(0, i as int)).push(dates@[i as int]));
            }
            i += 1;
        }
        assert(dates@.subrange(0, dates@.len() as int) =~= dates@);
        let len = dates_len(&recurrence.dates_patterns);
        if len > 1 {
            let ghost whole = recurrence.dates();
            let (head, tail) = dates_split(recurrence.dates_patterns);
            assert(tail@ =~= dates@) by {
                assert(whole.len() == 1 + tail@.len());
                assert forall|j: int| 0 <= j < tail@.len() implies tail@[j] == dates@[j] by {
                    assert((seq![head] + tail@)[j + 1] == tail@[j]);
                    assert(whole[j + 1] == dates@[j]);
                }
            }
            match dates_from_vec(tail) {
                Some(ne) => Recurrence { dates_patterns: ne, time_patterns: times },
                None => Recurrence { dates_patterns: dates_new(DatePattern::Point(HoleyDate::default())), time_patterns: times },
            }
        } else {
            Recurrence { dates_patterns: recurrence.dates_patterns, time_patterns: times }
        }
    }
}

#[derive(Debug)]
pub struct Countdown {
    pub durations: Vec<Interval>,
}

#[derive(Debug)]
pub struct Cron {
    pub expr: String,
}

#[derive(Debug)]
pub struct Description(pub String);

#[derive(Debug)]
pub enum ReminderPattern {
    Recurrence(Recurrence),
    Countdown(Countdown),
    Cron(Cron),
}

#[derive(Debug)]
pub struct Reminder {
    pub description: Option<Description>,
    pub pattern: Option<ReminderPattern>,
    pub nag_interval: Option<Interval>,
}

impl ReminderPattern {
    pub open spec fn wf(self) -> bool {
        match self {
            ReminderPattern::Recurrence(r) => r.wf(),
            _ => true,
        }
    }
}

} // verus!
