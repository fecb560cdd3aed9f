//! Checking a reminder read from a text, and turning it into one to store.
use chrono::Datelike;
use vstd::prelude::*;

use crate::calendar::{date_le, date_lt, date_lt_exec, from_ymd_opt, spec_normalise_day, valid_ymd, Date, DateTime};
use crate::date::{add_date_interval, normalise_day, spec_add_date_interval, spec_add_interval};
use crate::collections::{dates_get, dates_len};
use crate::grammar;
use crate::zone::{local_time, spec_local_time, spec_utc_time, utc_time};
use crate::syntax::{parse_reminder, reads_as, reminder_text};
use crate::serializers::{spec_from_holey, spec_interval_from, spec_next, DateDivisor, DatePattern, Pattern};

verus! {

/// Why a text is not taken as a reminder.
#[derive(Debug, Clone, Copy, PartialEq, Eq, Structural)]
pub enum ParseError {
    InvalidFormat,
    DateInPast,
    TimeRangeEndBeforeStart,
    DateRangeEndBeforeStart,
    TimeIntervalTooLargeForRange,
    DateIntervalTooLargeForRange,
    NagIntervalUnsupportedUnit,
    CronExpressionInvalid,
}

// ---------------------------------------------------------------------------
// nagging intervals

/// The length in seconds of a nagging interval: `None` where it counts months or years,
/// or comes to no time at all.
pub open spec fn spec_nag_secs(interval: grammar::Interval) -> Option<i64> {
    if interval.years != 0 || interval.months != 0 {
        None
    } else {
        let total = interval.weeks * 604800 + interval.days * 86400 + interval.hours * 3600
            + interval.minutes * 60 + interval.seconds;
        if total > 0 {
            Some(total as i64)
        } else {
            None
        }
    }
}

pub fn nag_interval_to_secs(interval: &grammar::Interval) -> (r: Option<i64>)
    ensures
        r == spec_nag_secs(*interval),
{
    if interval.years != 0 || interval.months != 0 {
        return None;
    }
    let total_secs: i64 = interval.weeks as i64 * 604800 + interval.days as i64 * 86400
        + interval.hours as i64 * 3600 + interval.minutes as i64 * 60 + interval.seconds as i64;
    if total_secs > 0 {
        Some(total_secs)
    } else {
        None
    }
}

/// The length in seconds of a nagging interval, or why it is refused.
pub open spec fn spec_nag_result(interval: grammar::Interval) -> Result<i64, ParseError> {
    if interval.years != 0 || interval.months != 0 {
        Err(ParseError::NagIntervalUnsupportedUnit)
    } else {
        match spec_nag_secs(interval) {
            Some(s) => Ok(s),
            None => Err(ParseError::InvalidFormat),
        }
    }
}

pub fn nag_interval_to_secs_result(interval: &grammar::Interval) -> (r: Result<i64, ParseError>)
    ensures
        r == spec_nag_result(*interval),
{
    if interval.years != 0 || interval.months != 0 {
        return Err(ParseError::NagIntervalUnsupportedUnit);
    }
    match nag_interval_to_secs(interval) {
        Some(s) => Ok(s),
        None => Err(ParseError::InvalidFormat),
    }
}

// ---------------------------------------------------------------------------
// time ranges

pub open spec fn spec_time_secs(t: grammar::Time) -> int {
    t.hour * 3600 + t.minute * 60 + t.second
}

pub fn time_to_seconds(time: &grammar::Time) -> (r: i64)
    ensures
        r == spec_time_secs(*time),
{
    time.hour as i64 * 60 * 60 + time.minute as i64 * 60 + time.second as i64
}

pub fn time_interval_to_seconds(interval: &grammar::TimeInterval) -> (r: i64)
    ensures
        r == interval.total_secs(),
{
    interval.hours as i64 * 60 * 60 + interval.minutes as i64 * 60 + interval.seconds as i64
}

/// Whether a time range with both ends has a step longer than the range.
pub open spec fn range_step_too_large(tp: grammar::TimePattern) -> bool {
    match tp {
        grammar::TimePattern::Range(r) => match (r.from, r.until) {
            (Some(f), Some(u)) => r.interval.total_secs() > spec_time_secs(u) - spec_time_secs(f),
            _ => false,
        },
        _ => false,
    }
}

/// Whether a time range with both ends ends no later than it starts.
pub open spec fn range_ends_before_start(tp: grammar::TimePattern) -> bool {
    match tp {
        grammar::TimePattern::Range(r) => match (r.from, r.until) {
            (Some(f), Some(u)) => spec_time_secs(u) <= spec_time_secs(f),
            _ => false,
        },
        _ => false,
    }
}

pub open spec fn spec_has_time_interval_too_large_for_range(
    pattern: grammar::ReminderPattern,
) -> bool {
    match pattern {
        grammar::ReminderPattern::Recurrence(r) => exists|i: int|
            0 <= i < r.time_patterns@.len() && range_step_too_large(#[trigger] r.time_patterns@[i]),
        _ => false,
    }
}

pub open spec fn spec_has_time_range_end_before_start(pattern: grammar::ReminderPattern) -> bool {
    match pattern {
        grammar::ReminderPattern::Recurrence(r) => exists|i: int|
            0 <= i < r.time_patterns@.len() && range_ends_before_start(
                #[trigger] r.time_patterns@[i],
            ),
        _ => false,
    }
}

fn range_step_too_large_exec(tp: &grammar::TimePattern) -> (r: bool)
    ensures
        r == range_step_too_large(*tp),
{
    match tp {
        grammar::TimePattern::Range(range) => match (range.from, range.until) {
            (Some(from), Some(until)) => {
                let span = time_to_seconds(&until) - time_to_seconds(&from);
                let interval = time_interval_to_seconds(&range.interval);
                interval > span
            },
            _ => false,
        },
        _ => false,
    }
}

fn range_ends_before_start_exec(tp: &grammar::TimePattern) -> (r: bool)
    ensures
        r == range_ends_before_start(*tp),
{
    match tp {
        grammar::TimePattern::Range(range) => match (range.from, range.until) {
            (Some(from), Some(until)) => time_to_seconds(&until) <= time_to_seconds(&from),
            _ => false,
        },
        _ => false,
    }
}

#[verifier::loop_isolation(false)]
pub fn has_time_interval_too_large_for_range(pattern: &grammar::ReminderPattern) -> (r: bool)
    ensures
        r == spec_has_time_interval_too_large_for_range(*pattern),
{
    match pattern {
        grammar::ReminderPattern::Recurrence(recurrence) => {
            let mut i: usize = 0;
            while i < recurrence.time_patterns.len()
                invariant
                    i <= recurrence.time_patterns@.len(),
                    forall|j: int|
                        0 <= j < i ==> !range_step_too_large(
                            #[trigger] recurrence.time_patterns@[j],
                        ),
                decreases recurrence.time_patterns@.len() - i,
            {
                if range_step_too_large_exec(&recurrence.time_patterns[i]) {
                    return true;
                }
                i += 1;
            }
            false
        },
        _ => false,
    }
}

#[verifier::loop_isolation(false)]
pub fn has_time_range_end_before_start(pattern: &grammar::ReminderPattern) -> (r: bool)
    ensures
        r == spec_has_time_range_end_before_start(*pattern),
{
    match pattern {
        grammar::ReminderPattern::Recurrence(recurrence) => {
            let mut i: usize = 0;
            while i < recurrence.time_patterns.len()
                invariant
                    i <= recurrence.time_patterns@.len(),
                    forall|j: int|
                        0 <= j < i ==> !range_ends_before_start(
                            #[trigger] recurrence.time_patterns@[j],
                        ),
                decreases recurrence.time_patterns@.len() - i,
            {
                if range_ends_before_start_exec(&recurrence.time_patterns[i]) {
                    return true;
                }
                i += 1;
            }
            false
        },
        _ => false,
    }
}

// ---------------------------------------------------------------------------
// date ranges

/// The date a holey date names where it leaves nothing out.
pub open spec fn spec_holey_to_date(h: grammar::HoleyDate) -> Option<Date> {
    match (h.year, h.month, h.day) {
        (Some(y), Some(m), Some(d)) => if valid_ymd(y as int, m as int, d as int) {
            Some(Date { year: y, month: m, day: d })
        } else {
            None
        },
        _ => None,
    }
}

pub fn holey_date_to_naive(holey_date: &grammar::HoleyDate) -> (r: Option<Date>)
    ensures
        r == spec_holey_to_date(*holey_date),
{
    from_ymd_opt(holey_date.year?, holey_date.month?, holey_date.day?)
}

pub open spec fn or_opt<T>(a: Option<T>, b: Option<T>) -> Option<T> {
    match a {
        Some(x) => Some(x),
        None => b,
    }
}

/// The date a holey date names with its holes filled from the defaults, its day moved
/// back to the end of a shorter month.
pub open spec fn spec_holey_with_defaults(
    h: grammar::HoleyDate,
    year: Option<i32>,
    month: Option<u32>,
    day: Option<u32>,
) -> Option<Date> {
    match (or_opt(h.year, year), or_opt(h.month, month), or_opt(h.day, day)) {
        (Some(y), Some(m), Some(d)) => {
            let nd = spec_normalise_day(y as int, m as int, d as int);
            if valid_ymd(y as int, m as int, nd) {
                Some(Date { year: y, month: m, day: nd as u32 })
            } else {
                None
            }
        },
        _ => None,
    }
}

pub fn holey_date_to_naive_with_defaults(
    holey_date: &grammar::HoleyDate,
    default_year: Option<i32>,
    default_month: Option<u32>,
    default_day: Option<u32>,
) -> (r: Option<Date>)
    ensures
        r == spec_holey_with_defaults(*holey_date, default_year, default_month, default_day),
{
    let year = match holey_date.year {
        Some(y) => y,
        None => default_year?,
    };
    let month = match holey_date.month {
        Some(m) => m,
        None => default_month?,
    };
    let day = match holey_date.day {
        Some(d) => d,
        None => default_day?,
    };
    let day = normalise_day(year, month, day);
    from_ymd_opt(year, month, day)
}

/// Whether a date range with an end ends before it starts, each end's holes filled from
/// the other end.
pub open spec fn range_end_before_start(dp: grammar::DatePattern) -> bool {
    match dp {
        grammar::DatePattern::Range(r) => match r.until {
            Some(u) => match (
                spec_holey_with_defaults(r.from, u.year, u.month, u.day),
                spec_holey_with_defaults(u, r.from.year, r.from.month, r.from.day),
            ) {
                (Some(f), Some(e)) => date_lt(e, f),
                _ => false,
            },
            None => false,
        },
        _ => false,
    }
}

pub open spec fn spec_has_date_range_end_before_start(pattern: grammar::ReminderPattern) -> bool {
    match pattern {
        grammar::ReminderPattern::Recurrence(r) => exists|i: int|
            0 <= i < r.dates().len() && range_end_before_start(#[trigger] r.dates()[i]),
        _ => false,
    }
}

fn range_end_before_start_exec(dp: &grammar::DatePattern) -> (r: bool)
    ensures
        r == range_end_before_start(*dp),
{
    match dp {
        grammar::DatePattern::Range(range) => match range.until {
            Some(until) => {
                let from = holey_date_to_naive_with_defaults(
                    &range.from,
                    until.year,
                    until.month,
                    until.day,
                );
                let end = holey_date_to_naive_with_defaults(
                    &until,
                    range.from.year,
                    range.from.month,
                    range.from.day,
                );
                match (from, end) {
                    (Some(f), Some(e)) => date_lt_exec(&e, &f),
                    _ => false,
                }
            },
            None => false,
        },
        _ => false,
    }
}

#[verifier::loop_isolation(false)]
pub fn has_date_range_end_before_start(pattern: &grammar::ReminderPattern) -> (r: bool)
    ensures
        r == spec_has_date_range_end_before_start(*pattern),
{
    match pattern {
        grammar::ReminderPattern::Recurrence(recurrence) => {
            let n = dates_len(&recurrence.dates_patterns);
            let mut i: usize = 0;
            while i < n
                invariant
                    i <= n,
                    n == recurrence.dates().len(),
                    forall|j: int|
                        0 <= j < i ==> !range_end_before_start(#[trigger] recurrence.dates()[j]),
                decreases n - i,
            {
                match dates_get(&recurrence.dates_patterns, i) {
                    Some(p) => {
                        if range_end_before_start_exec(p) {
                            return true;
                        }
                    },
                    None => {},
                }
                i += 1;
            }
            false
        },
        _ => false,
    }
}

/// Whether a date pattern names a whole date (a day, or a range's end) before `today`.
pub open spec fn names_past_date(dp: grammar::DatePattern, today: Date) -> bool {
    match dp {
        grammar::DatePattern::Point(h) => match spec_holey_to_date(h) {
            Some(d) => date_lt(d, today),
            None => false,
        },
        grammar::DatePattern::Range(r) => match r.until {
            Some(u) => match spec_holey_to_date(u) {
                Some(d) => date_lt(d, today),
                None => false,
            },
            None => false,
        },
    }
}

pub open spec fn spec_has_explicit_past_date(pattern: grammar::ReminderPattern, today: Date) -> bool {
    match pattern {
        grammar::ReminderPattern::Recurrence(r) => exists|i: int|
            0 <= i < r.dates().len() && names_past_date(#[trigger] r.dates()[i], today),
        _ => false,
    }
}

fn names_past_date_exec(dp: &grammar::DatePattern, today: &Date) -> (r: bool)
    ensures
        r == names_past_date(*dp, *today),
{
    match dp {
        grammar::DatePattern::Point(holey_date) => match holey_date_to_naive(holey_date) {
            Some(d) => date_lt_exec(&d, today),
            None => false,
        },
        grammar::DatePattern::Range(range) => match range.until {
            Some(u) => match holey_date_to_naive(&u) {
                Some(d) => date_lt_exec(&d, today),
                None => false,
            },
            None => false,
        },
    }
}

/// Whether the pattern names a whole date before `today` (the current date where the
/// user is).
#[verifier::loop_isolation(false)]
pub fn has_explicit_past_date(pattern: &grammar::ReminderPattern, today: &Date) -> (r: bool)
    ensures
        r == spec_has_explicit_past_date(*pattern, *today),
{
    match pattern {
        grammar::ReminderPattern::Recurrence(recurrence) => {
            let n = dates_len(&recurrence.dates_patterns);
            let mut i: usize = 0;
            while i < n
                invariant
                    i <= n,
                    n == recurrence.dates().len(),
                    forall|j: int|
                        0 <= j < i ==> !names_past_date(#[trigger] recurrence.dates()[j], *today),
                decreases n - i,
            {
                match dates_get(&recurrence.dates_patterns, i) {
                    Some(p) => {
                        if names_past_date_exec(p, today) {
                            return true;
                        }
                    },
                    None => {},
                }
                i += 1;
            }
            false
        },
        _ => false,
    }
}

/// Whether a stored date range with an end and a step reaches past its end in one step.
pub open spec fn range_step_past_end(dp: DatePattern) -> bool {
    match dp {
        DatePattern::Range(r) => match (r.until, r.date_divisor) {
            (Some(u), DateDivisor::Interval(i)) => match spec_add_date_interval(r.from, i) {
                Some(n) => date_lt(u, n),
                None => false,
            },
            _ => false,
        },
        _ => false,
    }
}

pub open spec fn spec_has_date_interval_too_large_for_range(pattern: Pattern) -> bool {
    match pattern {
        Pattern::Recurrence(r) => exists|i: int|
            0 <= i < r.dates_patterns@.len() && range_step_past_end(#[trigger] r.dates_patterns@[i]),
        _ => false,
    }
}

fn range_step_past_end_exec(dp: &DatePattern) -> (r: bool)
    requires
        dp.wf(),
    ensures
        r == range_step_past_end(*dp),
{
    match dp {
        DatePattern::Range(range) => match (range.until, range.date_divisor) {
            (Some(until), DateDivisor::Interval(interval)) => match add_date_interval(
                &range.from,
                &interval,
            ) {
                Some(next_date) => date_lt_exec(&until, &next_date),
                None => false,
            },
            _ => false,
        },
        _ => false,
    }
}

#[verifier::loop_isolation(false)]
pub fn has_date_interval_too_large_for_range(pattern: &Pattern) -> (r: bool)
    requires
        pattern.wf(),
    ensures
        r == spec_has_date_interval_too_large_for_range(*pattern),
{
    match pattern {
        Pattern::Recurrence(recurrence) => {
            let mut i: usize = 0;
            while i < recurrence.dates_patterns.len()
                invariant
                    i <= recurrence.dates_patterns@.len(),
                    recurrence.wf(),
                    forall|j: int|
                        0 <= j < i ==> !range_step_past_end(#[trigger] recurrence.dates_patterns@[j]),
                decreases recurrence.dates_patterns@.len() - i,
            {
                assert(recurrence.dates_patterns@[i as int].wf());
                if range_step_past_end_exec(&recurrence.dates_patterns[i]) {
                    return true;
                }
                i += 1;
            }
            false
        },
        _ => false,
    }
}

// ---------------------------------------------------------------------------
// a full date at the start of a text

/// Whether a character is white space as Unicode defines it (the `White_Space` property),
/// as `char::is_whitespace` says: tab to carriage return, space, next line, no-break
/// space, the Ogham space mark, the en quad to the hair space, the line and paragraph
/// separators, the narrow no-break space, the medium mathematical space and the
/// ideographic space.
pub open spec fn spec_is_whitespace(c: char) -> bool {
    let n = c as u32;
    ||| 0x09 <= n <= 0x0d
    ||| n == 0x20
    ||| n == 0x85
    ||| n == 0xa0
    ||| n == 0x1680
    ||| 0x2000 <= n <= 0x200a
    ||| n == 0x2028
    ||| n == 0x2029
    ||| n == 0x202f
    ||| n == 0x205f
    ||| n == 0x3000
}

/// The date that `NaiveDate::parse_from_str` reads from a text with the format `%d.%m.%Y`.
pub uninterp spec fn spec_parse_dmy(s: Seq<char>) -> Option<Date>;

/// `char::is_whitespace`.
#[verifier::external_body]
pub(crate) fn is_whitespace(c: char) -> (r: bool)
    ensures
        r == spec_is_whitespace(c),
{
    c.is_whitespace()
}

/// `chrono::NaiveDate::parse_from_str` with the format `%d.%m.%Y`: the date a text names
/// as day, month and year. The contract names the result and claims it a valid date.
#[verifier::external_body]
pub(crate) fn parse_dmy(s: &str) -> (r: Option<Date>)
    ensures
        r == spec_parse_dmy(s@),
        r matches Some(d) ==> d.wf(),
{
    chrono::NaiveDate::parse_from_str(s, "%d.%m.%Y").ok().map(
        |d| Date { year: d.year(), month: d.month(), day: d.day() },
    )
}

/// The index of the first character from `i` on that is not white space.
pub open spec fn skip_ws(s: Seq<char>, i: int) -> int
    decreases s.len() - i,
{
    if i >= s.len() || !spec_is_whitespace(s[i]) {
        i
    } else {
        skip_ws(s, i + 1)
    }
}

/// The index of the first white space character from `i` on (the length where there is none).
pub open spec fn word_end(s: Seq<char>, i: int) -> int
    decreases s.len() - i,
{
    if i >= s.len() || spec_is_whitespace(s[i]) {
        i
    } else {
        word_end(s, i + 1)
    }
}

/// The first word of a text, as `str::split_whitespace` gives it.
pub open spec fn spec_first_word(s: Seq<char>) -> Option<Seq<char>> {
    let start = skip_ws(s, 0);
    if start >= s.len() {
        None
    } else {
        Some(s.subrange(start, word_end(s, start)))
    }
}

proof fn lemma_skip_ws_bounds(s: Seq<char>, i: int)
    requires
        0 <= i <= s.len(),
    ensures
        i <= skip_ws(s, i) <= s.len(),
    decreases s.len() - i,
{
    if i < s.len() && spec_is_whitespace(s[i]) {
        lemma_skip_ws_bounds(s, i + 1);
    }
}

proof fn lemma_word_end_bounds(s: Seq<char>, i: int)
    requires
        0 <= i <= s.len(),
    ensures
        i <= word_end(s, i) <= s.len(),
    decreases s.len() - i,
{
    if i < s.len() && !spec_is_whitespace(s[i]) {
        lemma_word_end_bounds(s, i + 1);
    }
}

/// The first word of a text.
pub fn first_word(s: &str) -> (r: Option<&str>)
    ensures
        r matches Some(w) ==> spec_first_word(s@) == Some(w@),
        r is None ==> spec_first_word(s@) is None,
{
    let n = s.unicode_len();
    let mut i: usize = 0;
    while i < n && is_whitespace(s.get_char(i))
        invariant
            n == s@.len(),
            i <= n,
            skip_ws(s@, 0) == skip_ws(s@, i as int),
        decreases n - i,
    {
        i += 1;
    }
    if i >= n {
        return None;
    }
    let mut j: usize = i;
    while j < n && !is_whitespace(s.get_char(j))
        invariant
            n == s@.len(),
            i <= j <= n,
            skip_ws(s@, 0) == i,
            word_end(s@, i as int) == word_end(s@, j as int),
        decreases n - j,
    {
        j += 1;
    }
    Some(s.substring_char(i, j))
}

/// Whether a text starts with a whole date (day.month.year) before `today`.
pub open spec fn spec_starts_with_past_full_date(s: Seq<char>, today: Date) -> bool {
    match spec_first_word(s) {
        Some(w) => match spec_parse_dmy(w) {
            Some(d) => date_lt(d, today),
            None => false,
        },
        None => false,
    }
}

/// Whether a text starts with a whole date (day.month.year) before `today` (the current
/// date where the user is).
pub fn starts_with_past_full_date(s: &str, today: &Date) -> (r: bool)
    ensures
        r == spec_starts_with_past_full_date(s@, *today),
{
    match first_word(s) {
        Some(token) => match parse_dmy(token) {
            Some(date) => date_lt_exec(&date, today),
            None => false,
        },
        None => false,
    }
}

// ---------------------------------------------------------------------------
// the reminder to store

/// A reminder read from a text, to be stored: its next time and pattern are in the
/// user's local time.
#[derive(Debug)]
pub struct NewReminder {
    pub chat_id: i64,
    pub user_id: u64,
    pub time: DateTime,
    pub desc: String,
    pub paused: bool,
    pub nag_interval_sec: Option<i64>,
    pub pattern: Pattern,
    pub rec_id: String,
}

/// When a reminder pattern read from a text is first due, its dates filled from `now`.
pub open spec fn spec_first_due(rp: grammar::ReminderPattern, now: DateTime) -> Option<DateTime> {
    match rp {
        grammar::ReminderPattern::Recurrence(rec) => match spec_from_holey(rec, now) {
            Some((dates, times)) => spec_next(dates, times, now),
            None => None,
        },
        grammar::ReminderPattern::Countdown(c) => if c.durations@.len() == 1 {
            spec_add_interval(now, spec_interval_from(c.durations@[0]))
        } else {
            None
        },
        grammar::ReminderPattern::Cron(_) => None,
    }
}

/// Whether the stored form of a pattern has a date range whose step passes its end.
pub open spec fn spec_interval_too_large(rp: grammar::ReminderPattern, now: DateTime) -> bool {
    match rp {
        grammar::ReminderPattern::Recurrence(rec) => match spec_from_holey(rec, now) {
            Some((dates, _)) => exists|i: int|
                0 <= i < dates.len() && range_step_past_end(#[trigger] dates[i]),
            None => false,
        },
        _ => false,
    }
}

/// Why a text read as `parsed` is refused, if it is; `past_full_date` tells whether the
/// text starts with a whole date that is past, `now` is the current local time.
pub open spec fn spec_refusal(
    parsed: Option<grammar::Reminder>,
    past_full_date: bool,
    now: DateTime,
) -> Option<ParseError> {
    match parsed {
        None => Some(
            if past_full_date {
                ParseError::DateInPast
            } else {
                ParseError::InvalidFormat
            },
        ),
        Some(rem) => match rem.pattern {
            None => Some(ParseError::InvalidFormat),
            Some(p) => if spec_has_time_range_end_before_start(p) {
                Some(ParseError::TimeRangeEndBeforeStart)
            } else if spec_has_date_range_end_before_start(p) {
                Some(ParseError::DateRangeEndBeforeStart)
            } else if spec_has_time_interval_too_large_for_range(p) {
                Some(ParseError::TimeIntervalTooLargeForRange)
            } else if rem.nag_interval matches Some(i) && spec_nag_result(i) is Err {
                Some(spec_nag_result(rem.nag_interval.unwrap())->Err_0)
            } else if !Pattern::has_form(p, now) {
                Some(
                    if p is Cron {
                        ParseError::CronExpressionInvalid
                    } else if spec_has_explicit_past_date(p, now.date) {
                        ParseError::DateInPast
                    } else {
                        ParseError::InvalidFormat
                    },
                )
            } else if spec_interval_too_large(p, now) {
                Some(ParseError::DateIntervalTooLargeForRange)
            } else if spec_first_due(p, now) is None {
                Some(ParseError::InvalidFormat)
            } else {
                None
            },
        },
    }
}

/// A time pattern is a range with both ends whose step, in seconds, is longer than from
/// its start to its end.
pub open spec fn step_longer_than_range(tp: grammar::TimePattern) -> bool {
    match tp {
        grammar::TimePattern::Range(r) => match (r.from, r.until) {
            (Some(f), Some(u)) => r.interval.hours * 3600 + r.interval.minutes * 60
                + r.interval.seconds > (u.hour * 3600 + u.minute * 60 + u.second) - (f.hour * 3600
                + f.minute * 60 + f.second),
            _ => false,
        },
        _ => false,
    }
}

/// A text is refused for a time step too large for its range only where one of its time
/// ranges, with both ends, has a step strictly longer than from its start to its end (in
/// seconds); a step as long as the range, or shorter, is never refused so.
pub proof fn law_time_step_refused_only_past_its_range(
    parsed: Option<grammar::Reminder>,
    past_full_date: bool,
    now: DateTime,
)
    ensures
        spec_refusal(parsed, past_full_date, now) == Some(ParseError::TimeIntervalTooLargeForRange)
            ==> (parsed matches Some(rem) && (rem.pattern matches Some(
            grammar::ReminderPattern::Recurrence(rec),
        ) && exists|i: int|
            0 <= i < rec.time_patterns@.len() && step_longer_than_range(
                #[trigger] rec.time_patterns@[i],
            ))),
{
    if spec_refusal(parsed, past_full_date, now) == Some(ParseError::TimeIntervalTooLargeForRange) {
        let rem = parsed.unwrap();
        let p = rem.pattern.unwrap();
        let rec = p->Recurrence_0;
        let i = choose|i: int|
            0 <= i < rec.time_patterns@.len() && range_step_too_large(#[trigger] rec.time_patterns@[i]);
        assert(step_longer_than_range(rec.time_patterns@[i]));
    }
}

/// Where no time range with both ends has a step longer than the range, the text is not
/// refused for a step too large.
pub proof fn law_time_step_within_range_accepted(
    parsed: Option<grammar::Reminder>,
    past_full_date: bool,
    now: DateTime,
)
    requires
        parsed matches Some(rem) && (rem.pattern matches Some(
            grammar::ReminderPattern::Recurrence(rec),
        ) && forall|i: int|
            0 <= i < rec.time_patterns@.len() ==> !step_longer_than_range(
                #[trigger] rec.time_patterns@[i],
            )),
    ensures
        spec_refusal(parsed, past_full_date, now) != Some(ParseError::TimeIntervalTooLargeForRange),
{
    let rec = parsed.unwrap().pattern.unwrap()->Recurrence_0;
    assert forall|i: int| 0 <= i < rec.time_patterns@.len() implies !range_step_too_large(
        #[trigger] rec.time_patterns@[i],
    ) by {
        assert(!step_longer_than_range(rec.time_patterns@[i]));
    }
}

pub open spec fn desc_of(d: Option<grammar::Description>) -> Seq<char> {
    match d {
        Some(grammar::Description(s)) => s@,
        None => Seq::empty(),
    }
}

pub open spec fn nag_of(i: Option<grammar::Interval>) -> Option<i64> {
    match i {
        Some(i) => Some(spec_nag_result(i)->Ok_0),
        None => None,
    }
}

pub open spec fn reminder_wf(parsed: Option<grammar::Reminder>) -> bool {
    parsed matches Some(r) ==> (r.pattern matches Some(p) ==> p.wf())
}

/// What checking `parsed` gives: the refusal that `spec_refusal` names, or else a reminder
/// to store that keeps the chat, the user, the description and the nag interval, is first
/// due when the pattern is, and keeps the pattern stepped past that time.
pub open spec fn reminder_outcome(
    parsed: Option<grammar::Reminder>,
    past_full_date: bool,
    chat_id: i64,
    user_id: u64,
    rec_id: Seq<char>,
    now: DateTime,
    r: Result<NewReminder, ParseError>,
) -> bool {
    &&& r matches Err(e) ==> spec_refusal(parsed, past_full_date, now) == Some(e)
    &&& r is Ok <==> spec_refusal(parsed, past_full_date, now) is None
    &&& r matches Ok(v) ==> {
        let rem = parsed.unwrap();
        let p = rem.pattern.unwrap();
        &&& v.chat_id == chat_id
        &&& v.user_id == user_id
        &&& v.rec_id@ == rec_id
        &&& !v.paused
        &&& v.desc@ == desc_of(rem.description)
        &&& v.nag_interval_sec == nag_of(rem.nag_interval)
        &&& Some(v.time) == spec_first_due(p, now)
        &&& exists|q: Pattern| #[trigger] q.is_from(p, now) && q.spec_step(now) == (v.pattern, Some(v.time))
        &&& p is Recurrence ==> crate::calendar::datetime_lt(now, v.time)
    }
}

/// `parsed` is what the grammar reads from `text`.
pub open spec fn parses_to(text: Seq<char>, parsed: Option<grammar::Reminder>) -> bool {
    &&& parsed is Some <==> (reminder_text(text) matches Some((_, ok)) && ok)
    &&& parsed matches Some(rem) ==> reads_as(rem, reminder_text(text).unwrap().0)
    &&& reminder_wf(parsed)
}

/// Checks a reminder read from a text and turns it into one to store, first due after
/// `now` (the current local time).
pub fn check_reminder(
    parsed: Option<grammar::Reminder>,
    past_full_date: bool,
    chat_id: i64,
    user_id: u64,
    rec_id: String,
    now: &DateTime,
) -> (r: Result<NewReminder, ParseError>)
    requires
        reminder_wf(parsed),
        now.wf(),
    ensures
        reminder_outcome(parsed, past_full_date, chat_id, user_id, rec_id@, *now, r),
{
    let rem = match parsed {
        Some(rem) => rem,
        None => {
            return Err(
                if past_full_date {
                    ParseError::DateInPast
                } else {
                    ParseError::InvalidFormat
                },
            );
        },
    };
    let grammar::Reminder { description, pattern, nag_interval } = rem;
    let pattern = match pattern {
        Some(p) => p,
        None => {
            return Err(ParseError::InvalidFormat);
        },
    };
    if has_time_range_end_before_start(&pattern) {
        return Err(ParseError::TimeRangeEndBeforeStart);
    }
    if has_date_range_end_before_start(&pattern) {
        return Err(ParseError::DateRangeEndBeforeStart);
    }
    if has_time_interval_too_large_for_range(&pattern) {
        return Err(ParseError::TimeIntervalTooLargeForRange);
    }
    let description = match description {
        Some(grammar::Description(d)) => d,
        None => String::new(),
    };
    let nag_interval_sec = match nag_interval {
        Some(interval) => match nag_interval_to_secs_result(&interval) {
            Ok(secs) => Some(secs),
            Err(e) => {
                return Err(e);
            },
        },
        None => None,
    };
    let is_cron_pattern = match pattern {
        grammar::ReminderPattern::Cron(_) => true,
        _ => false,
    };
    let has_past_date = has_explicit_past_date(&pattern, &now.date);
    let ghost p0 = pattern;
    let mut stored = match Pattern::from_with_now(pattern, now) {
        Ok(p) => p,
        Err(()) => {
            return Err(
                if is_cron_pattern {
                    ParseError::CronExpressionInvalid
                } else if has_past_date {
                    ParseError::DateInPast
                } else {
                    ParseError::InvalidFormat
                },
            );
        },
    };
    let ghost q = stored;
    assert(spec_has_date_interval_too_large_for_range(stored) == spec_interval_too_large(p0, *now));
    if has_date_interval_too_large_for_range(&stored) {
        return Err(ParseError::DateIntervalTooLargeForRange);
    }
    let time = match stored.next(now) {
        Some(t) => t,
        None => {
            return Err(ParseError::InvalidFormat);
        },
    };
    assert(q.is_from(p0, *now) && q.spec_step(*now) == (stored, Some(time)));
    Ok(NewReminder {
        chat_id,
        user_id,
        time,
        desc: description,
        paused: false,
        nag_interval_sec,
        pattern: stored,
        rec_id,
    })
}

/// Reads a reminder from a user's text and checks it, in the user's wall-clock time: `now`
/// is the current time where the user is. The text is refused with the first reason that applies, as `spec_refusal`
/// orders them; a text the grammar cannot read is refused as a date in the past where it
/// starts with a whole date before today.
pub fn parse_reminder_at(
    s: &str,
    chat_id: i64,
    user_id: u64,
    rec_id: String,
    now: &DateTime,
) -> (r: Result<NewReminder, ParseError>)
    requires
        now.wf(),
    ensures
        exists|parsed: Option<grammar::Reminder>|
            #[trigger] parses_to(s@, parsed) && reminder_outcome(
                parsed,
                spec_starts_with_past_full_date(s@, now.date),
                chat_id,
                user_id,
                rec_id@,
                *now,
                r,
            ),
{
    let parsed = parse_reminder(s);
    let past_full_date = starts_with_past_full_date(s, &now.date);
    let ghost p0 = parsed;
    let ghost id = rec_id@;
    let r = check_reminder(parsed, past_full_date, chat_id, user_id, rec_id, now);
    assert(parses_to(s@, p0));
    r
}

/// The reminder `local` (read in the user's wall-clock time) with its time told in UTC
/// for the timezone named `tz`: `r` is it, or the refusal as it was, or a refusal as not
/// understood where that wall-clock time does not exist there.
pub open spec fn reminder_in_utc(
    local: Result<NewReminder, ParseError>,
    tz: Seq<char>,
    r: Result<NewReminder, ParseError>,
) -> bool {
    match local {
        Err(e) => r == Err::<NewReminder, ParseError>(e),
        Ok(n) => match spec_utc_time(tz, n.time) {
            None => r == Err::<NewReminder, ParseError>(ParseError::InvalidFormat),
            Some(u) => r matches Ok(m) && m.time == u && m.chat_id == n.chat_id && m.user_id
                == n.user_id && m.desc@ == n.desc@ && m.paused == n.paused && m.nag_interval_sec
                == n.nag_interval_sec && m.pattern == n.pattern && m.rec_id@ == n.rec_id@,
        },
    }
}

/// Reads a reminder from a user's text and checks it: `tz` names the user's timezone and
/// `now_utc` is the current time in UTC. The text is read in the user's wall-clock time,
/// and the reminder's time is given in UTC. Where the current time cannot be told in the
/// timezone, or the reminder's time does not exist there, the text is refused as not
/// understood.
pub fn parse_reminder_detailed(
    s: &str,
    chat_id: i64,
    user_id: u64,
    rec_id: String,
    tz: &str,
    now_utc: &DateTime,
) -> (r: Result<NewReminder, ParseError>)
    ensures
        match spec_local_time(tz@, *now_utc) {
            None => r == Err::<NewReminder, ParseError>(ParseError::InvalidFormat),
            Some(now) => exists|parsed: Option<grammar::Reminder>, local: Result<NewReminder, ParseError>|
                #![trigger parses_to(s@, parsed), reminder_in_utc(local, tz@, r)]
                parses_to(s@, parsed) && reminder_outcome(
                    parsed,
                    spec_starts_with_past_full_date(s@, now.date),
                    chat_id,
                    user_id,
                    rec_id@,
                    now,
                    local,
                ) && reminder_in_utc(local, tz@, r),
        },
{
    let now = match local_time(tz, now_utc) {
        Some(n) => n,
        None => {
            return Err(ParseError::InvalidFormat);
        },
    };
    let ghost id = rec_id@;
    let local = parse_reminder_at(s, chat_id, user_id, rec_id, &now);
    let ghost lg = local;
    let ghost parsed = choose|parsed: Option<grammar::Reminder>|
        #[trigger] parses_to(s@, parsed) && reminder_outcome(
            parsed,
            spec_starts_with_past_full_date(s@, now.date),
            chat_id,
            user_id,
            id,
            now,
            lg,
        );
    let r = match local {
        Err(e) => Err(e),
        Ok(n) => match utc_time(tz, &n.time) {
            None => Err(ParseError::InvalidFormat),
            Some(u) => Ok(
                NewReminder {
                    chat_id: n.chat_id,
                    user_id: n.user_id,
                    time: u,
                    desc: n.desc,
                    paused: n.paused,
                    nag_interval_sec: n.nag_interval_sec,
                    pattern: n.pattern,
                    rec_id: n.rec_id,
                },
            ),
        },
    };
    assert(parses_to(s@, parsed) && reminder_in_utc(lg, tz@, r));
    r
}

} // verus!
