//! The reminder grammar, read from text.
//!
//! Each rule is stated twice: as a spec function over the characters of the text, which
//! says what the rule matches from a position (its value, whether its numbers fit, and
//! where it ends), and as an executable reader that is proved to give the same answer.
//! Alternatives are tried in order and the first that matches is kept; optional and
//! repeated parts take as much as they can, as in a parsing expression grammar.
use vstd::prelude::*;

use crate::grammar::{
    day_bit, range_span, span_bits, Countdown, Cron, DateDivisor, DateInterval, DatePattern,
    DateRange, Description, HoleyDate, Interval, Recurrence, Reminder, ReminderPattern, Time,
    TimeInterval, TimePattern, TimeRange, Weekday, Weekdays,
};
use crate::calendar::{spec_weekday, Date};
use crate::text::push_char;
use crate::text::{digit_value, digits_value, is_digit};

verus! {

// ---------------------------------------------------------------------------
// characters

/// The blanks that separate the parts of a reminder.
pub open spec fn is_ws(c: char) -> bool {
    c == ' ' || c == '\t' || c == '\r' || c == '\n'
}

pub open spec fn char_is(s: Seq<char>, i: int, c: char) -> bool {
    0 <= i < s.len() && s[i] == c
}

pub open spec fn ws_at(s: Seq<char>, i: int) -> bool {
    0 <= i < s.len() && is_ws(s[i])
}

pub open spec fn digit_at(s: Seq<char>, i: int) -> bool {
    0 <= i < s.len() && is_digit(s[i])
}

pub open spec fn nonzero_at(s: Seq<char>, i: int) -> bool {
    0 <= i < s.len() && '1' <= s[i] <= '9'
}

pub open spec fn digit_between(s: Seq<char>, i: int, lo: char, hi: char) -> bool {
    0 <= i < s.len() && lo <= s[i] <= hi
}

/// The value of the digit at `i`.
pub open spec fn dv(s: Seq<char>, i: int) -> nat {
    digit_value(s[i])
}

/// Where a run of blanks from `i` ends.
pub open spec fn ws_end(s: Seq<char>, i: int) -> int
    decreases s.len() - i,
{
    if 0 <= i < s.len() && is_ws(s[i]) {
        ws_end(s, i + 1)
    } else {
        i
    }
}

/// Where a run of digits from `i` ends.
pub open spec fn digits_end(s: Seq<char>, i: int) -> int
    decreases s.len() - i,
{
    if digit_at(s, i) {
        digits_end(s, i + 1)
    } else {
        i
    }
}

/// `c` is the letter `lower` in either case (or the same character).
pub open spec fn eq_ci(c: char, lower: char) -> bool {
    c == lower || ('a' <= lower <= 'z' && c as int + 32 == lower as int)
}

/// The words of the grammar, in lower case.
#[derive(Clone, Copy, PartialEq, Eq, Structural, Debug)]
pub enum Word {
    Years,
    Months,
    Weeks,
    Days,
    Hours,
    Minutes,
    Seconds,
    Monday,
    Tuesday,
    Wednesday,
    Thursday,
    Friday,
    Saturday,
    Sunday,
    Every,
    On,
    At,
    After,
    In,
    Cron,
}

pub open spec fn word(w: Word) -> Seq<char> {
    match w {
        Word::Years => seq!['y', 'e', 'a', 'r', 's'],
        Word::Months => seq!['m', 'o', 'n', 't', 'h', 's'],
        Word::Weeks => seq!['w', 'e', 'e', 'k', 's'],
        Word::Days => seq!['d', 'a', 'y', 's'],
        Word::Hours => seq!['h', 'o', 'u', 'r', 's'],
        Word::Minutes => seq!['m', 'i', 'n', 'u', 't', 'e', 's'],
        Word::Seconds => seq!['s', 'e', 'c', 'o', 'n', 'd', 's'],
        Word::Monday => seq!['m', 'o', 'n', 'd', 'a', 'y'],
        Word::Tuesday => seq!['t', 'u', 'e', 's', 'd', 'a', 'y'],
        Word::Wednesday => seq!['w', 'e', 'd', 'n', 'e', 's', 'd', 'a', 'y'],
        Word::Thursday => seq!['t', 'h', 'u', 'r', 's', 'd', 'a', 'y'],
        Word::Friday => seq!['f', 'r', 'i', 'd', 'a', 'y'],
        Word::Saturday => seq!['s', 'a', 't', 'u', 'r', 'd', 'a', 'y'],
        Word::Sunday => seq!['s', 'u', 'n', 'd', 'a', 'y'],
        Word::Every => seq!['e', 'v', 'e', 'r', 'y'],
        Word::On => seq!['o', 'n'],
        Word::At => seq!['a', 't'],
        Word::After => seq!['a', 'f', 't', 'e', 'r'],
        Word::In => seq!['i', 'n'],
        Word::Cron => seq!['c', 'r', 'o', 'n', ':'],
    }
}

/// How many characters of `w`, from its `k`-th on, the text spells at `i + k` onwards,
/// ignoring case.
pub open spec fn ci_run(s: Seq<char>, i: int, w: Seq<char>, k: int) -> int
    decreases w.len() - k,
{
    if 0 <= k < w.len() && 0 <= i + k < s.len() && eq_ci(s[i + k], w[k]) {
        ci_run(s, i, w, k + 1)
    } else {
        k
    }
}

/// The text at `i` spells the longest prefix it can of word `w`, of `min` characters at
/// least; where it ends.
pub open spec fn prefix_end(s: Seq<char>, i: int, w: Word, min: int) -> Option<int> {
    let k = ci_run(s, i, word(w), 0);
    if k >= min {
        Some(i + k)
    } else {
        None
    }
}

// ---------------------------------------------------------------------------
// numbers, dates and times

/// `year`: four digits.
pub open spec fn year_at(s: Seq<char>, i: int) -> Option<(i32, int)> {
    if digit_at(s, i) && digit_at(s, i + 1) && digit_at(s, i + 2) && digit_at(s, i + 3) {
        Some(
            ((dv(s, i) * 1000 + dv(s, i + 1) * 100 + dv(s, i + 2) * 10 + dv(s, i + 3)) as i32, i
                + 4),
        )
    } else {
        None
    }
}

/// `month`: `1` and one of `0`-`2`, or a digit `1`-`9` after an optional `0`.
pub open spec fn month_at(s: Seq<char>, i: int) -> Option<(u32, int)> {
    if char_is(s, i, '1') && digit_between(s, i + 1, '0', '2') {
        Some(((10 + dv(s, i + 1)) as u32, i + 2))
    } else if char_is(s, i, '0') {
        if nonzero_at(s, i + 1) {
            Some((dv(s, i + 1) as u32, i + 2))
        } else {
            None
        }
    } else if nonzero_at(s, i) {
        Some((dv(s, i) as u32, i + 1))
    } else {
        None
    }
}

/// `day`: `1`-`2` and a digit, `3` and `0`-`1`, or `1`-`9` after an optional `0`.
pub open spec fn day_at(s: Seq<char>, i: int) -> Option<(u32, int)> {
    if digit_between(s, i, '1', '2') && digit_at(s, i + 1) {
        Some(((dv(s, i) * 10 + dv(s, i + 1)) as u32, i + 2))
    } else if char_is(s, i, '3') && digit_between(s, i + 1, '0', '1') {
        Some(((30 + dv(s, i + 1)) as u32, i + 2))
    } else if char_is(s, i, '0') {
        if nonzero_at(s, i + 1) {
            Some((dv(s, i + 1) as u32, i + 2))
        } else {
            None
        }
    } else if nonzero_at(s, i) {
        Some((dv(s, i) as u32, i + 1))
    } else {
        None
    }
}

/// `hour`: `2` and `0`-`3`, `0`-`1` and a digit, or one digit.
pub open spec fn hour_at(s: Seq<char>, i: int) -> Option<(u32, int)> {
    if char_is(s, i, '2') && digit_between(s, i + 1, '0', '3') {
        Some(((20 + dv(s, i + 1)) as u32, i + 2))
    } else if digit_between(s, i, '0', '1') && digit_at(s, i + 1) {
        Some(((dv(s, i) * 10 + dv(s, i + 1)) as u32, i + 2))
    } else if digit_at(s, i) {
        Some((dv(s, i) as u32, i + 1))
    } else {
        None
    }
}

/// `minute` and `second`: `0`-`5` and a digit, or one digit.
pub open spec fn sixty_at(s: Seq<char>, i: int) -> Option<(u32, int)> {
    if digit_between(s, i, '0', '5') && digit_at(s, i + 1) {
        Some(((dv(s, i) * 10 + dv(s, i + 1)) as u32, i + 2))
    } else if digit_at(s, i) {
        Some((dv(s, i) as u32, i + 1))
    } else {
        None
    }
}

/// `splitter`: an em dash, `--` or `-`.
pub open spec fn splitter_end(s: Seq<char>, i: int) -> Option<int> {
    if char_is(s, i, '—') {
        Some(i + 1)
    } else if char_is(s, i, '-') && char_is(s, i + 1, '-') {
        Some(i + 2)
    } else if char_is(s, i, '-') {
        Some(i + 1)
    } else {
        None
    }
}

/// The optional `[year/]month/` in front of a day.
pub open spec fn date_head(s: Seq<char>, i: int) -> (Option<i32>, Option<u32>, int) {
    let (y, p) = match year_at(s, i) {
        Some((y, e)) => if char_is(s, e, '/') {
            (Some(y), e + 1)
        } else {
            (None, i)
        },
        None => (None, i),
    };
    match month_at(s, p) {
        Some((m, e)) => if char_is(s, e, '/') {
            (y, Some(m), e + 1)
        } else {
            (None, None, i)
        },
        None => (None, None, i),
    }
}

/// `date`: `[[year/]month/]day` followed by a splitter, `/` or a blank; or else
/// `day[.month[.year]]`.
pub open spec fn date_at(s: Seq<char>, i: int) -> Option<(HoleyDate, int)> {
    let (y, m, p) = date_head(s, i);
    let first = match day_at(s, p) {
        Some((d, e)) => if splitter_end(s, e) is Some || char_is(s, e, '/') || ws_at(s, e) {
            Some((HoleyDate { year: y, month: m, day: Some(d) }, e))
        } else {
            None
        },
        None => None,
    };
    if first is Some {
        first
    } else {
        match day_at(s, i) {
            Some((d, e)) => if char_is(s, e, '.') {
                match month_at(s, e + 1) {
                    Some((m, e2)) => if char_is(s, e2, '.') {
                        match year_at(s, e2 + 1) {
                            Some((y, e3)) => Some(
                                (HoleyDate { year: Some(y), month: Some(m), day: Some(d) }, e3),
                            ),
                            None => Some((HoleyDate { year: None, month: Some(m), day: Some(d) }, e2)),
                        }
                    } else {
                        Some((HoleyDate { year: None, month: Some(m), day: Some(d) }, e2))
                    },
                    None => Some((HoleyDate { year: None, month: None, day: Some(d) }, e)),
                }
            } else {
                Some((HoleyDate { year: None, month: None, day: Some(d) }, e))
            },
            None => None,
        }
    }
}

/// `time`: `hour[:minute[:second]]`; what is left out is zero.
pub open spec fn time_at(s: Seq<char>, i: int) -> Option<(Time, int)> {
    match hour_at(s, i) {
        Some((h, e)) => if char_is(s, e, ':') {
            match sixty_at(s, e + 1) {
                Some((m, e2)) => if char_is(s, e2, ':') {
                    match sixty_at(s, e2 + 1) {
                        Some((sec, e3)) => Some((Time { hour: h, minute: m, second: sec }, e3)),
                        None => Some((Time { hour: h, minute: m, second: 0 }, e2)),
                    }
                } else {
                    Some((Time { hour: h, minute: m, second: 0 }, e2))
                },
                None => Some((Time { hour: h, minute: 0, second: 0 }, e)),
            }
        } else {
            Some((Time { hour: h, minute: 0, second: 0 }, e))
        },
        None => None,
    }
}

/// `weekday`: the longest prefix of a day's name, as long as `m`, `tu`, `w`, `th`, `f`,
/// `sa` or `su` at least, tried from Monday on.
pub open spec fn weekday_at(s: Seq<char>, i: int) -> Option<(Weekday, int)> {
    if let Some(e) = prefix_end(s, i, Word::Monday, 1) {
        Some((Weekday::Monday, e))
    } else if let Some(e) = prefix_end(s, i, Word::Tuesday, 2) {
        Some((Weekday::Tuesday, e))
    } else if let Some(e) = prefix_end(s, i, Word::Wednesday, 1) {
        Some((Weekday::Wednesday, e))
    } else if let Some(e) = prefix_end(s, i, Word::Thursday, 2) {
        Some((Weekday::Thursday, e))
    } else if let Some(e) = prefix_end(s, i, Word::Friday, 1) {
        Some((Weekday::Friday, e))
    } else if let Some(e) = prefix_end(s, i, Word::Saturday, 2) {
        Some((Weekday::Saturday, e))
    } else if let Some(e) = prefix_end(s, i, Word::Sunday, 2) {
        Some((Weekday::Sunday, e))
    } else {
        None
    }
}

/// The English name of a day of the week, in lower case.
pub open spec fn day_name(w: Weekday) -> Seq<char> {
    match w {
        Weekday::Monday => "monday"@,
        Weekday::Tuesday => "tuesday"@,
        Weekday::Wednesday => "wednesday"@,
        Weekday::Thursday => "thursday"@,
        Weekday::Friday => "friday"@,
        Weekday::Saturday => "saturday"@,
        Weekday::Sunday => "sunday"@,
    }
}

proof fn reveal_day_names()
    ensures
        day_name(Weekday::Monday) == word(Word::Monday),
        day_name(Weekday::Tuesday) == word(Word::Tuesday),
        day_name(Weekday::Wednesday) == word(Word::Wednesday),
        day_name(Weekday::Thursday) == word(Word::Thursday),
        day_name(Weekday::Friday) == word(Word::Friday),
        day_name(Weekday::Saturday) == word(Word::Saturday),
        day_name(Weekday::Sunday) == word(Word::Sunday),
{
    reveal_strlit("monday");
    reveal_strlit("tuesday");
    reveal_strlit("wednesday");
    reveal_strlit("thursday");
    reveal_strlit("friday");
    reveal_strlit("saturday");
    reveal_strlit("sunday");
    assert(day_name(Weekday::Monday) =~= word(Word::Monday));
    assert(day_name(Weekday::Tuesday) =~= word(Word::Tuesday));
    assert(day_name(Weekday::Wednesday) =~= word(Word::Wednesday));
    assert(day_name(Weekday::Thursday) =~= word(Word::Thursday));
    assert(day_name(Weekday::Friday) =~= word(Word::Friday));
    assert(day_name(Weekday::Saturday) =~= word(Word::Saturday));
    assert(day_name(Weekday::Sunday) =~= word(Word::Sunday));
}

/// How far the text at `i` spells `w` from its `k`-th letter on: the run stays within the
/// word, and goes on past a letter that is spelt.
proof fn lemma_ci_run(s: Seq<char>, i: int, w: Seq<char>, k: int)
    requires
        0 <= k <= w.len(),
    ensures
        k <= ci_run(s, i, w, k) <= w.len(),
        (0 <= i + k < s.len() && k < w.len() && eq_ci(s[i + k], w[k])) ==> ci_run(s, i, w, k) > k,
    decreases w.len() - k,
{
    if 0 <= k < w.len() && 0 <= i + k < s.len() && eq_ci(s[i + k], w[k]) {
        lemma_ci_run(s, i, w, k + 1);
    }
}

/// Every letter up to where the run ends is spelt, within the text.
proof fn lemma_ci_run_spelt(s: Seq<char>, i: int, w: Seq<char>, k: int, j: int)
    requires
        0 <= k <= j < ci_run(s, i, w, k),
    ensures
        0 <= i + j < s.len() && j < w.len() && eq_ci(s[i + j], w[j]),
    decreases j - k,
{
    if j > k {
        lemma_ci_run_spelt(s, i, w, k + 1, j);
    }
}

/// A day word is read as the day it spells: the text read is a prefix (of a letter at
/// least) of that day's English name, in either case.
pub proof fn law_weekday_word_spells_its_day(s: Seq<char>, i: int)
    ensures
        weekday_at(s, i) matches Some((w, e)) ==> i < e <= i + day_name(w).len() && forall|k: int|
            0 <= k < e - i ==> 0 <= i + k < s.len() && eq_ci(s[i + k], #[trigger] day_name(w)[k]),
{
    reveal_day_names();
    if let Some((w, e)) = weekday_at(s, i) {
        let name = day_name(w);
        lemma_ci_run(s, i, name, 0);
        assert(e == i + ci_run(s, i, name, 0));
        assert forall|k: int| 0 <= k < e - i implies 0 <= i + k < s.len() && eq_ci(
            s[i + k],
            #[trigger] day_name(w)[k],
        ) by {
            lemma_ci_run_spelt(s, i, name, 0, k);
        }
    }
}

/// A day's number is the day of the week the calendar gives its dates: 1 January 2024 was
/// a Monday, and the first week of 2024 runs Monday 1st to Sunday 7th.
pub proof fn law_weekday_number_follows_the_calendar(w: Weekday)
    ensures
        spec_weekday(
            Date {
                year: 2024,
                month: 1,
                day: match w {
                    Weekday::Monday => 1,
                    Weekday::Tuesday => 2,
                    Weekday::Wednesday => 3,
                    Weekday::Thursday => 4,
                    Weekday::Friday => 5,
                    Weekday::Saturday => 6,
                    Weekday::Sunday => 7,
                },
            },
        ) == w.index(),
{
}

/// The first two letters of a day's English name, in either case, are read as that day.
pub proof fn law_day_name_reads_as_its_day(s: Seq<char>, i: int, w: Weekday)
    requires
        0 <= i,
        i + 1 < s.len(),
        eq_ci(s[i], day_name(w)[0]),
        eq_ci(s[i + 1], day_name(w)[1]),
    ensures
        weekday_at(s, i) matches Some((v, _)) && v == w,
{
    reveal_day_names();
    lemma_ci_run(s, i, word(Word::Monday), 0);
    lemma_ci_run(s, i, word(Word::Tuesday), 0);
    lemma_ci_run(s, i, word(Word::Wednesday), 0);
    lemma_ci_run(s, i, word(Word::Thursday), 0);
    lemma_ci_run(s, i, word(Word::Friday), 0);
    lemma_ci_run(s, i, word(Word::Saturday), 0);
    lemma_ci_run(s, i, word(Word::Sunday), 0);
    lemma_ci_run(s, i, word(Word::Monday), 1);
    lemma_ci_run(s, i, word(Word::Tuesday), 1);
    lemma_ci_run(s, i, word(Word::Wednesday), 1);
    lemma_ci_run(s, i, word(Word::Thursday), 1);
    lemma_ci_run(s, i, word(Word::Friday), 1);
    lemma_ci_run(s, i, word(Word::Saturday), 1);
    lemma_ci_run(s, i, word(Word::Sunday), 1);
}

// ---------------------------------------------------------------------------
// intervals, weekdays and divisors

/// The units of an interval.
#[derive(Clone, Copy, PartialEq, Eq, Structural, Debug)]
pub enum Unit {
    Years,
    Months,
    Weeks,
    Days,
    Hours,
    Minutes,
    Seconds,
}

/// Which units an interval may use: all of them, those of a time of day, or those of
/// a date (where a lone `m` means months).
#[derive(Clone, Copy, PartialEq, Eq, Structural, Debug)]
pub enum Flavour {
    Full,
    TimeOnly,
    DateOnly,
}

/// Where the name of unit `u` at `i` ends: the longest prefix of its name, at least `y`,
/// `mo` (`m` for a date), `w`, `d`, `h`, `m` or `s`; minutes may also be `mins`.
pub open spec fn unit_end(s: Seq<char>, i: int, u: Unit, f: Flavour) -> Option<int> {
    match u {
        Unit::Years => prefix_end(s, i, Word::Years, 1),
        Unit::Months => prefix_end(
            s,
            i,
            Word::Months,
            if f is DateOnly {
                1
            } else {
                2
            },
        ),
        Unit::Weeks => prefix_end(s, i, Word::Weeks, 1),
        Unit::Days => prefix_end(s, i, Word::Days, 1),
        Unit::Hours => prefix_end(s, i, Word::Hours, 1),
        Unit::Minutes => {
            let k = ci_run(s, i, word(Word::Minutes), 0);
            if k == 0 {
                None
            } else if k == 3 && 0 <= i + 3 < s.len() && eq_ci(s[i + 3], 's') {
                Some(i + 4)
            } else {
                Some(i + k)
            }
        },
        Unit::Seconds => prefix_end(s, i, Word::Seconds, 1),
    }
}

pub open spec fn unit_try(s: Seq<char>, i: int, u: Unit, f: Flavour) -> Option<(Unit, int)> {
    match unit_end(s, i, u, f) {
        Some(e) => Some((u, e)),
        None => None,
    }
}

pub open spec fn first_some<T>(a: Option<T>, b: Option<T>) -> Option<T> {
    if a is Some {
        a
    } else {
        b
    }
}

/// The first unit of the flavour, in the order years, months, weeks, days, hours,
/// minutes, seconds, whose name stands at `i`.
pub open spec fn first_unit(s: Seq<char>, i: int, f: Flavour) -> Option<(Unit, int)> {
    match f {
        Flavour::Full => first_some(
            unit_try(s, i, Unit::Years, f),
            first_some(
                unit_try(s, i, Unit::Months, f),
                first_some(
                    unit_try(s, i, Unit::Weeks, f),
                    first_some(
                        unit_try(s, i, Unit::Days, f),
                        first_some(
                            unit_try(s, i, Unit::Hours, f),
                            first_some(
                                unit_try(s, i, Unit::Minutes, f),
                                unit_try(s, i, Unit::Seconds, f),
                            ),
                        ),
                    ),
                ),
            ),
        ),
        Flavour::TimeOnly => first_some(
            unit_try(s, i, Unit::Hours, f),
            first_some(unit_try(s, i, Unit::Minutes, f), unit_try(s, i, Unit::Seconds, f)),
        ),
        Flavour::DateOnly => first_some(
            unit_try(s, i, Unit::Years, f),
            first_some(
                unit_try(s, i, Unit::Months, f),
                first_some(unit_try(s, i, Unit::Weeks, f), unit_try(s, i, Unit::Days, f)),
            ),
        ),
    }
}

/// One component of an interval: a number without leading zero, then a unit; the
/// unit, the number and where the component ends.
pub open spec fn component_at(s: Seq<char>, i: int, f: Flavour) -> Option<(Unit, nat, int)> {
    if nonzero_at(s, i) {
        let e = digits_end(s, i + 1);
        match first_unit(s, e, f) {
            Some((u, e2)) => Some((u, digits_value(s.subrange(i, e)), e2)),
            None => None,
        }
    } else {
        None
    }
}

/// The largest number a unit holds (years are signed).
pub open spec fn unit_limit(u: Unit) -> nat {
    if u is Years {
        0x7fff_ffff
    } else {
        0xffff_ffff
    }
}

pub open spec fn zero_interval() -> Interval {
    Interval { years: 0, months: 0, weeks: 0, days: 0, hours: 0, minutes: 0, seconds: 0 }
}

/// `acc` with the field of unit `u` set to `v`.
pub open spec fn set_unit(acc: Interval, u: Unit, v: nat) -> Interval {
    match u {
        Unit::Years => Interval { years: v as i32, ..acc },
        Unit::Months => Interval { months: v as u32, ..acc },
        Unit::Weeks => Interval { weeks: v as u32, ..acc },
        Unit::Days => Interval { days: v as u32, ..acc },
        Unit::Hours => Interval { hours: v as u32, ..acc },
        Unit::Minutes => Interval { minutes: v as u32, ..acc },
        Unit::Seconds => Interval { seconds: v as u32, ..acc },
    }
}

/// Reads the components from `i` on into `acc`, a later one of a unit replacing an
/// earlier one; `ok` turns false where a number does not fit its field (that field is
/// then left as it was).
pub open spec fn interval_fold(s: Seq<char>, i: int, f: Flavour, acc: Interval, ok: bool) -> (
    Interval,
    bool,
    int,
)
    decreases s.len() - i,
{
    match component_at(s, i, f) {
        Some((u, v, e)) => if i < e <= s.len() {
            if v <= unit_limit(u) {
                interval_fold(s, e, f, set_unit(acc, u, v), ok)
            } else {
                interval_fold(s, e, f, acc, false)
            }
        } else {
            (acc, ok, i)
        },
        None => (acc, ok, i),
    }
}

/// `interval`: one component or more.
pub open spec fn interval_at(s: Seq<char>, i: int, f: Flavour) -> Option<(Interval, bool, int)> {
    if component_at(s, i, f) is Some {
        Some(interval_fold(s, i, f, zero_interval(), true))
    } else {
        None
    }
}

pub open spec fn date_part(iv: Interval) -> DateInterval {
    DateInterval { years: iv.years, months: iv.months, weeks: iv.weeks, days: iv.days }
}

pub open spec fn time_part(iv: Interval) -> TimeInterval {
    TimeInterval { hours: iv.hours, minutes: iv.minutes, seconds: iv.seconds }
}

/// `weekdays_range`: a weekday, or two joined by `-`; the days from the first to the
/// second, round the week.
pub open spec fn weekdays_range_at(s: Seq<char>, i: int) -> Option<(u8, int)> {
    match weekday_at(s, i) {
        Some((from, e)) => if char_is(s, e, '-') && weekday_at(s, e + 1) is Some {
            let (to, e2) = weekday_at(s, e + 1).unwrap();
            Some((span_bits(from.index(), range_span(from, Some(to)) + 1), e2))
        } else {
            Some((span_bits(from.index(), range_span(from, None) + 1), e))
        },
        None => None,
    }
}

/// Reads further `,`-separated weekday ranges into `acc`.
pub open spec fn weekdays_fold(s: Seq<char>, i: int, acc: u8) -> (u8, int)
    decreases s.len() - i,
{
    if char_is(s, i, ',') {
        match weekdays_range_at(s, i + 1) {
            Some((b, e)) => if i < e <= s.len() {
                weekdays_fold(s, e, acc | b)
            } else {
                (acc, i)
            },
            None => (acc, i),
        }
    } else {
        (acc, i)
    }
}

/// `weekdays_ranges`: weekday ranges separated by `,`; the days of all of them.
pub open spec fn weekdays_ranges_at(s: Seq<char>, i: int) -> Option<(u8, int)> {
    match weekdays_range_at(s, i) {
        Some((b, e)) => Some(weekdays_fold(s, e, b)),
        None => None,
    }
}

/// `/` or the word `every`.
pub open spec fn slash_or_every(s: Seq<char>, i: int) -> Option<int> {
    if char_is(s, i, '/') {
        Some(i + 1)
    } else {
        prefix_end(s, i, Word::Every, 5)
    }
}

/// The prefix of an interval divisor, blanks after it included.
pub open spec fn interval_prefix_end(s: Seq<char>, i: int) -> Option<int> {
    match slash_or_every(s, i) {
        Some(e) => Some(ws_end(s, e)),
        None => None,
    }
}

/// The prefix of a weekdays divisor (`/`, `every` or `on`), blanks after it included.
pub open spec fn weekdays_prefix_end(s: Seq<char>, i: int) -> Option<int> {
    match first_some(slash_or_every(s, i), prefix_end(s, i, Word::On, 2)) {
        Some(e) => Some(ws_end(s, e)),
        None => None,
    }
}

/// `date_divisor`: an interval of dates, or else the weekdays to keep.
pub open spec fn date_divisor_at(s: Seq<char>, i: int) -> Option<(DateDivisor, bool, int)> {
    let first = match interval_prefix_end(s, i) {
        Some(p) => match interval_at(s, p, Flavour::DateOnly) {
            Some((iv, ok, e)) => Some((DateDivisor::Interval(date_part(iv)), ok, e)),
            None => None,
        },
        None => None,
    };
    if first is Some {
        first
    } else {
        match weekdays_prefix_end(s, i) {
            Some(p) => match weekdays_ranges_at(s, p) {
                Some((b, e)) => Some((DateDivisor::Weekdays(Weekdays { bits: b }), true, e)),
                None => None,
            },
            None => None,
        }
    }
}

/// `time_divisor`: an interval of time.
pub open spec fn time_divisor_at(s: Seq<char>, i: int) -> Option<(TimeInterval, bool, int)> {
    match interval_prefix_end(s, i) {
        Some(p) => match interval_at(s, p, Flavour::TimeOnly) {
            Some((iv, ok, e)) => Some((time_part(iv), ok, e)),
            None => None,
        },
        None => None,
    }
}

// ---------------------------------------------------------------------------
// date and time patterns

pub open spec fn empty_holey() -> HoleyDate {
    HoleyDate { year: None, month: None, day: None }
}

/// The divisor of a date range that names none: every day.
pub open spec fn every_day() -> DateDivisor {
    DateDivisor::Interval(DateInterval { years: 0, months: 0, weeks: 0, days: 1 })
}

pub open spec fn opt_holey(h: Option<HoleyDate>) -> HoleyDate {
    match h {
        Some(h) => h,
        None => empty_holey(),
    }
}

/// `dates_range`: a divisor alone; or `[from]` splitter `[until]`, then blanks and a
/// divisor if one follows (every day otherwise); or `from`, blanks and a divisor.
pub open spec fn dates_range_at(s: Seq<char>, i: int) -> Option<(DateRange, bool, int)> {
    if let Some((d, ok, e)) = date_divisor_at(s, i) {
        Some((DateRange { from: empty_holey(), until: None, date_divisor: d }, ok, e))
    } else {
        let (from, p) = match date_at(s, i) {
            Some((h, e)) => (Some(h), e),
            None => (None, i),
        };
        let second = match splitter_end(s, p) {
            Some(q) => {
                let (until, q2) = match date_at(s, q) {
                    Some((h, e)) => (Some(h), e),
                    None => (None, q),
                };
                match date_divisor_at(s, ws_end(s, q2)) {
                    Some((d, ok, e)) => Some(
                        (DateRange { from: opt_holey(from), until: until, date_divisor: d }, ok, e),
                    ),
                    None => Some(
                        (
                            DateRange { from: opt_holey(from), until: until, date_divisor: every_day() },
                            true,
                            q2,
                        ),
                    ),
                }
            },
            None => None,
        };
        if second is Some {
            second
        } else {
            match date_at(s, i) {
                Some((h, e)) => match date_divisor_at(s, ws_end(s, e)) {
                    Some((d, ok, e2)) => Some(
                        (DateRange { from: h, until: None, date_divisor: d }, ok, e2),
                    ),
                    None => None,
                },
                None => None,
            }
        }
    }
}

/// `dates_pattern`: a range, or else one date.
pub open spec fn dates_pattern_at(s: Seq<char>, i: int) -> Option<(DatePattern, bool, int)> {
    match dates_range_at(s, i) {
        Some((r, ok, e)) => Some((DatePattern::Range(r), ok, e)),
        None => match date_at(s, i) {
            Some((h, e)) => Some((DatePattern::Point(h), true, e)),
            None => None,
        },
    }
}

pub open spec fn dates_fold(s: Seq<char>, i: int, acc: Seq<DatePattern>, ok: bool) -> (
    Seq<DatePattern>,
    bool,
    int,
)
    decreases s.len() - i,
{
    if char_is(s, i, ',') {
        match dates_pattern_at(s, i + 1) {
            Some((p, ok2, e)) => if i < e <= s.len() {
                dates_fold(s, e, acc.push(p), ok && ok2)
            } else {
                (acc, ok, i)
            },
            None => (acc, ok, i),
        }
    } else {
        (acc, ok, i)
    }
}

/// `dates_patterns`: date patterns separated by `,`.
pub open spec fn dates_patterns_at(s: Seq<char>, i: int) -> Option<(Seq<DatePattern>, bool, int)> {
    match dates_pattern_at(s, i) {
        Some((p, ok, e)) => Some(dates_fold(s, e, seq![p], ok)),
        None => None,
    }
}

/// `time_range`: a divisor alone; or `[from]` splitter `[until]`, blanks and a divisor;
/// or `from`, blanks and a divisor.
pub open spec fn time_range_at(s: Seq<char>, i: int) -> Option<(TimeRange, bool, int)> {
    if let Some((iv, ok, e)) = time_divisor_at(s, i) {
        Some((TimeRange { from: None, until: None, interval: iv }, ok, e))
    } else {
        let (from, p) = match time_at(s, i) {
            Some((t, e)) => (Some(t), e),
            None => (None, i),
        };
        let second = match splitter_end(s, p) {
            Some(q) => {
                let (until, q2) = match time_at(s, q) {
                    Some((t, e)) => (Some(t), e),
                    None => (None, q),
                };
                match time_divisor_at(s, ws_end(s, q2)) {
                    Some((iv, ok, e)) => Some(
                        (TimeRange { from: from, until: until, interval: iv }, ok, e),
                    ),
                    None => None,
                }
            },
            None => None,
        };
        if second is Some {
            second
        } else {
            match time_at(s, i) {
                Some((t, e)) => match time_divisor_at(s, ws_end(s, e)) {
                    Some((iv, ok, e2)) => Some(
                        (TimeRange { from: Some(t), until: None, interval: iv }, ok, e2),
                    ),
                    None => None,
                },
                None => None,
            }
        }
    }
}

/// `time_pattern`: a range, or else one time.
pub open spec fn time_pattern_at(s: Seq<char>, i: int) -> Option<(TimePattern, bool, int)> {
    match time_range_at(s, i) {
        Some((r, ok, e)) => Some((TimePattern::Range(r), ok, e)),
        None => match time_at(s, i) {
            Some((t, e)) => Some((TimePattern::Point(t), true, e)),
            None => None,
        },
    }
}

pub open spec fn time_fold(s: Seq<char>, i: int, acc: Seq<TimePattern>, ok: bool) -> (
    Seq<TimePattern>,
    bool,
    int,
)
    decreases s.len() - i,
{
    if char_is(s, i, ',') {
        match time_pattern_at(s, i + 1) {
            Some((p, ok2, e)) => if i < e <= s.len() {
                time_fold(s, e, acc.push(p), ok && ok2)
            } else {
                (acc, ok, i)
            },
            None => (acc, ok, i),
        }
    } else {
        (acc, ok, i)
    }
}

/// `time_patterns`: an optional `at` and blanks, then time patterns separated by `,`.
pub open spec fn time_patterns_at(s: Seq<char>, i: int) -> Option<(Seq<TimePattern>, bool, int)> {
    let p = match prefix_end(s, i, Word::At, 2) {
        Some(e) => e,
        None => i,
    };
    match time_pattern_at(s, ws_end(s, p)) {
        Some((t, ok, e)) => Some(time_fold(s, e, seq![t], ok)),
        None => None,
    }
}

// ---------------------------------------------------------------------------
// reminders

/// What may follow a reminder pattern: a blank, the end, or the `!` of a nag interval.
pub open spec fn pattern_follow(s: Seq<char>, i: int) -> bool {
    ws_at(s, i) || i == s.len() || char_is(s, i, '!')
}

/// `recurrence`: date patterns, blanks and time patterns; or time patterns alone.
pub open spec fn recurrence_at(s: Seq<char>, i: int) -> Option<
    (Seq<DatePattern>, Seq<TimePattern>, bool, int),
> {
    let first = match dates_patterns_at(s, i) {
        Some((ds, ok, e)) => if ws_at(s, e) {
            match time_patterns_at(s, ws_end(s, e)) {
                Some((ts, ok2, e2)) => if pattern_follow(s, e2) {
                    Some((ds, ts, ok && ok2, e2))
                } else {
                    None
                },
                None => None,
            }
        } else {
            None
        },
        None => None,
    };
    if first is Some {
        first
    } else {
        match time_patterns_at(s, i) {
            Some((ts, ok, e)) => if pattern_follow(s, e) {
                Some((Seq::empty(), ts, ok, e))
            } else {
                None
            },
            None => None,
        }
    }
}

/// The optional `after`, `in` or `+` before a countdown interval, blanks included.
pub open spec fn countdown_prefix_end(s: Seq<char>, i: int) -> int {
    let head = first_some(
        prefix_end(s, i, Word::After, 5),
        first_some(
            prefix_end(s, i, Word::In, 2),
            if char_is(s, i, '+') {
                Some(i + 1)
            } else {
                None
            },
        ),
    );
    ws_end(
        s,
        match head {
            Some(e) => e,
            None => i,
        },
    )
}

pub open spec fn countdown_one_at(s: Seq<char>, i: int) -> Option<(Interval, bool, int)> {
    interval_at(s, countdown_prefix_end(s, i), Flavour::Full)
}

pub open spec fn countdown_fold(s: Seq<char>, i: int, acc: Seq<Interval>, ok: bool) -> (
    Seq<Interval>,
    bool,
    int,
)
    decreases s.len() - i,
{
    if char_is(s, i, ',') {
        match countdown_one_at(s, i + 1) {
            Some((iv, ok2, e)) => if i < e <= s.len() {
                countdown_fold(s, e, acc.push(iv), ok && ok2)
            } else {
                (acc, ok, i)
            },
            None => (acc, ok, i),
        }
    } else {
        (acc, ok, i)
    }
}

/// `countdown`: intervals separated by `,`.
pub open spec fn countdown_at(s: Seq<char>, i: int) -> Option<(Seq<Interval>, bool, int)> {
    match countdown_one_at(s, i) {
        Some((iv, ok, e)) => {
            let (ivs, ok2, e2) = countdown_fold(s, e, seq![iv], ok);
            if pattern_follow(s, e2) {
                Some((ivs, ok2, e2))
            } else {
                None
            }
        },
        None => None,
    }
}

/// A character of a cron field: neither a blank nor `!`.
pub open spec fn field_char(c: char) -> bool {
    !is_ws(c) && c != '!'
}

pub open spec fn field_end(s: Seq<char>, i: int) -> int
    decreases s.len() - i,
{
    if 0 <= i < s.len() && field_char(s[i]) {
        field_end(s, i + 1)
    } else {
        i
    }
}

/// `n + 1` cron fields separated by blanks; where the last ends.
pub open spec fn cron_fields_end(s: Seq<char>, i: int, n: nat) -> Option<int>
    decreases n,
{
    let e = field_end(s, i);
    if e > i {
        if n == 0 {
            Some(e)
        } else if ws_at(s, e) {
            cron_fields_end(s, ws_end(s, e), (n - 1) as nat)
        } else {
            None
        }
    } else {
        None
    }
}

/// `cron`: `cron:`, blanks, then the five fields of the expression.
pub open spec fn cron_at(s: Seq<char>, i: int) -> Option<(Seq<char>, int)> {
    match prefix_end(s, i, Word::Cron, 5) {
        Some(p) => {
            let q = ws_end(s, p);
            match cron_fields_end(s, q, 4) {
                Some(e) => Some((s.subrange(q, e), e)),
                None => None,
            }
        },
        None => None,
    }
}

/// `nag_suffix`: `!` and an interval, followed by a blank or the end.
pub open spec fn nag_at(s: Seq<char>, i: int) -> Option<(Interval, bool, int)> {
    if char_is(s, i, '!') {
        match interval_at(s, i + 1, Flavour::Full) {
            Some((iv, ok, e)) => if ws_at(s, e) || e == s.len() {
                Some((iv, ok, e))
            } else {
                None
            },
            None => None,
        }
    } else {
        None
    }
}

/// Where the last word from `j` on ends (`last` where none does).
pub open spec fn desc_scan(s: Seq<char>, j: int, last: int) -> int
    decreases s.len() - j,
{
    if 0 <= j < s.len() {
        if is_ws(s[j]) {
            desc_scan(s, j + 1, last)
        } else {
            desc_scan(s, j + 1, j + 1)
        }
    } else {
        last
    }
}

/// Blanks, then the description: the text from the first word to the end of the last.
pub open spec fn description_at(s: Seq<char>, i: int) -> Option<(Seq<char>, int)> {
    if ws_at(s, i) {
        let p = ws_end(s, i);
        if p < s.len() {
            let e = desc_scan(s, p, p);
            Some((s.subrange(p, e), e))
        } else {
            None
        }
    } else {
        None
    }
}

/// A reminder pattern as the text gives it.
pub enum PatternText {
    /// The date patterns named (maybe none) and the time patterns.
    Recurrence(Seq<DatePattern>, Seq<TimePattern>),
    Countdown(Seq<Interval>),
    Cron(Seq<char>),
}

/// A reminder as the text gives it.
pub struct ReminderText {
    pub description: Option<Seq<char>>,
    pub pattern: PatternText,
    pub nag_interval: Option<Interval>,
}

/// `cron`, or else `recurrence`, or else `countdown`.
pub open spec fn pattern_at(s: Seq<char>, i: int) -> Option<(PatternText, bool, int)> {
    match cron_at(s, i) {
        Some((expr, e)) => Some((PatternText::Cron(expr), true, e)),
        None => match recurrence_at(s, i) {
            Some((ds, ts, ok, e)) => Some((PatternText::Recurrence(ds, ts), ok, e)),
            None => match countdown_at(s, i) {
                Some((ivs, ok, e)) => Some((PatternText::Countdown(ivs), ok, e)),
                None => None,
            },
        },
    }
}

/// `reminder`: blanks, a pattern, an optional nag suffix, an optional description after
/// blanks, and blanks to the end. With the reminder comes whether every number in it
/// fits its field.
pub open spec fn reminder_text(s: Seq<char>) -> Option<(ReminderText, bool)> {
    match pattern_at(s, ws_end(s, 0)) {
        Some((pt, ok, e)) => {
            let (nag, ok2, e2) = match nag_at(s, e) {
                Some((iv, ok2, e2)) => (Some(iv), ok2, e2),
                None => (None, true, e),
            };
            let (desc, e3) = match description_at(s, e2) {
                Some((d, e3)) => (Some(d), e3),
                None => (None, e2),
            };
            if ws_end(s, e3) == s.len() {
                Some((ReminderText { description: desc, pattern: pt, nag_interval: nag }, ok && ok2))
            } else {
                None
            }
        },
        None => None,
    }
}

/// The date patterns of a recurrence that names `ds`: the current date where it names
/// none.
pub open spec fn dates_or_today(ds: Seq<DatePattern>) -> Seq<DatePattern> {
    if ds.len() == 0 {
        seq![DatePattern::Point(empty_holey())]
    } else {
        ds
    }
}

pub open spec fn pattern_reads_as(rp: ReminderPattern, pt: PatternText) -> bool {
    match (rp, pt) {
        (ReminderPattern::Recurrence(r), PatternText::Recurrence(ds, ts)) => r.dates()
            == dates_or_today(ds) && r.time_patterns@ == ts,
        (ReminderPattern::Countdown(c), PatternText::Countdown(ivs)) => c.durations@ == ivs,
        (ReminderPattern::Cron(c), PatternText::Cron(expr)) => c.expr@ == expr,
        _ => false,
    }
}

pub open spec fn description_view(d: Option<Description>) -> Option<Seq<char>> {
    match d {
        Some(Description(text)) => Some(text@),
        None => None,
    }
}

/// A reminder holds what the text gives.
pub open spec fn reads_as(r: Reminder, t: ReminderText) -> bool {
    &&& description_view(r.description) == t.description
    &&& r.nag_interval == t.nag_interval
    &&& r.pattern matches Some(p) && pattern_reads_as(p, t.pattern)
}

// ---------------------------------------------------------------------------
// what the readers keep

pub open spec fn time_nonzero(iv: Interval) -> bool {
    iv.hours > 0 || iv.minutes > 0 || iv.seconds > 0
}

pub open spec fn date_pattern_good(p: DatePattern) -> bool {
    p matches DatePattern::Range(r) ==> (r.date_divisor matches DateDivisor::Weekdays(w)
        ==> w.bits & 0x7fu8 != 0)
}

pub open spec fn time_pattern_good(p: TimePattern) -> bool {
    p matches TimePattern::Range(r) ==> r.interval.total_secs() > 0
}

pub proof fn lemma_day_bit_low(x: nat)
    ensures
        day_bit(x) & 0x7fu8 != 0,
{
    let k = (x % 7) as u8;
    assert((1u8 << k) & 0x7fu8 != 0) by (bit_vector)
        requires
            k < 7,
    ;
}

pub proof fn lemma_or_low(a: u8, b: u8)
    requires
        a & 0x7fu8 != 0 || b & 0x7fu8 != 0,
    ensures
        (a | b) & 0x7fu8 != 0,
{
    assert((a & 0x7fu8 != 0 || b & 0x7fu8 != 0) ==> (a | b) & 0x7fu8 != 0) by (bit_vector);
}

pub proof fn lemma_span_bits_low(from: nat, n: nat)
    requires
        n >= 1,
    ensures
        span_bits(from, n) & 0x7fu8 != 0,
{
    lemma_day_bit_low((from + n - 1) as nat);
    lemma_or_low(span_bits(from, (n - 1) as nat), day_bit((from + n - 1) as nat));
}

/// A numeral that starts with a digit other than `0` is at least 1.
pub proof fn lemma_leading_digit(s: Seq<char>, i: int, e: int)
    requires
        nonzero_at(s, i),
        i < e <= s.len(),
    ensures
        digits_value(s.subrange(i, e)) >= 1,
{
    let t = s.subrange(i, e);
    crate::text::lemma_digits_value_prefix_mono(t, 1);
    assert(t.subrange(0, 1).drop_last() =~= Seq::<char>::empty());
    assert(digits_value(Seq::<char>::empty()) == 0);
    assert(t.subrange(0, 1).last() == s[i]);
}

// ---------------------------------------------------------------------------
// readers

fn is_blank(c: char) -> (r: bool)
    ensures
        r == is_ws(c),
{
    c == ' ' || c == '\t' || c == '\r' || c == '\n'
}

fn char_eq_at(s: &Vec<char>, i: usize, c: char) -> (r: bool)
    ensures
        r == char_is(s@, i as int, c),
{
    i < s.len() && s[i] == c
}

fn digit_in(s: &Vec<char>, i: usize, lo: char, hi: char) -> (r: bool)
    ensures
        r == digit_between(s@, i as int, lo, hi),
{
    i < s.len() && lo <= s[i] && s[i] <= hi
}

fn digit_at_exec(s: &Vec<char>, i: usize) -> (r: bool)
    ensures
        r == digit_at(s@, i as int),
{
    i < s.len() && '0' <= s[i] && s[i] <= '9'
}

fn nonzero_at_exec(s: &Vec<char>, i: usize) -> (r: bool)
    ensures
        r == nonzero_at(s@, i as int),
{
    i < s.len() && '1' <= s[i] && s[i] <= '9'
}

fn digit_val(s: &Vec<char>, i: usize) -> (r: u32)
    requires
        digit_at(s@, i as int),
    ensures
        r == dv(s@, i as int),
        r <= 9,
{
    s[i] as u32 - '0' as u32
}

/// The characters of a text.
pub fn chars_of(text: &str) -> (r: Vec<char>)
    ensures
        r@ == text@,
{
    let n = text.unicode_len();
    let mut v: Vec<char> = Vec::new();
    let mut i: usize = 0;
    while i < n
        invariant
            n == text@.len(),
            i <= n,
            v@ == text@.subrange(0, i as int),
        decreases n - i,
    {
        v.push(text.get_char(i));
        assert(text@.subrange(0, i + 1) =~= text@.subrange(0, i as int).push(text@[i as int]));
        i += 1;
    }
    assert(text@.subrange(0, n as int) =~= text@);
    v
}

pub fn skip_ws(s: &Vec<char>, i: usize) -> (r: usize)
    requires
        i <= s.len(),
    ensures
        r == ws_end(s@, i as int),
        i <= r <= s.len(),
{
    let mut j = i;
    while j < s.len() && is_blank(s[j])
        invariant
            i <= j <= s.len(),
            ws_end(s@, i as int) == ws_end(s@, j as int),
        decreases s.len() - j,
    {
        j += 1;
    }
    j
}

pub fn skip_digits(s: &Vec<char>, i: usize) -> (r: usize)
    requires
        i <= s.len(),
    ensures
        r == digits_end(s@, i as int),
        i <= r <= s.len(),
        forall|k: int| i <= k < r ==> digit_at(s@, k),
{
    let mut j = i;
    while j < s.len() && '0' <= s[j] && s[j] <= '9'
        invariant
            i <= j <= s.len(),
            digits_end(s@, i as int) == digits_end(s@, j as int),
            forall|k: int| i <= k < j ==> digit_at(s@, k),
        decreases s.len() - j,
    {
        j += 1;
    }
    j
}

fn eq_ci_exec(c: char, lower: char) -> (r: bool)
    ensures
        r == eq_ci(c, lower),
{
    c == lower || ('a' <= lower && lower <= 'z' && (c as u32) + 32 == lower as u32)
}

fn word_chars(w: Word) -> (r: Vec<char>)
    ensures
        r@ == word(w),
{
    match w {
        Word::Years => vec!['y', 'e', 'a', 'r', 's'],
        Word::Months => vec!['m', 'o', 'n', 't', 'h', 's'],
        Word::Weeks => vec!['w', 'e', 'e', 'k', 's'],
        Word::Days => vec!['d', 'a', 'y', 's'],
        Word::Hours => vec!['h', 'o', 'u', 'r', 's'],
        Word::Minutes => vec!['m', 'i', 'n', 'u', 't', 'e', 's'],
        Word::Seconds => vec!['s', 'e', 'c', 'o', 'n', 'd', 's'],
        Word::Monday => vec!['m', 'o', 'n', 'd', 'a', 'y'],
        Word::Tuesday => vec!['t', 'u', 'e', 's', 'd', 'a', 'y'],
        Word::Wednesday => vec!['w', 'e', 'd', 'n', 'e', 's', 'd', 'a', 'y'],
        Word::Thursday => vec!['t', 'h', 'u', 'r', 's', 'd', 'a', 'y'],
        Word::Friday => vec!['f', 'r', 'i', 'd', 'a', 'y'],
        Word::Saturday => vec!['s', 'a', 't', 'u', 'r', 'd', 'a', 'y'],
        Word::Sunday => vec!['s', 'u', 'n', 'd', 'a', 'y'],
        Word::Every => vec!['e', 'v', 'e', 'r', 'y'],
        Word::On => vec!['o', 'n'],
        Word::At => vec!['a', 't'],
        Word::After => vec!['a', 'f', 't', 'e', 'r'],
        Word::In => vec!['i', 'n'],
        Word::Cron => vec!['c', 'r', 'o', 'n', ':'],
    }
}

fn ci_run_exec(s: &Vec<char>, i: usize, w: &Vec<char>) -> (r: usize)
    requires
        i <= s.len(),
    ensures
        r == ci_run(s@, i as int, w@, 0),
        r <= w.len(),
        i + r <= s.len(),
{
    let mut k: usize = 0;
    while k < w.len() && i + k < s.len() && eq_ci_exec(s[i + k], w[k])
        invariant
            k <= w.len(),
            i + k <= s.len(),
            ci_run(s@, i as int, w@, 0) == ci_run(s@, i as int, w@, k as int),
        decreases w.len() - k,
    {
        k += 1;
    }
    k
}

pub fn prefix_end_exec(s: &Vec<char>, i: usize, w: Word, min: usize) -> (r: Option<usize>)
    requires
        i <= s.len(),
    ensures
        match r {
            Some(e) => prefix_end(s@, i as int, w, min as int) == Some(e as int) && i <= e <= s.len(),
            None => prefix_end(s@, i as int, w, min as int) is None,
        },
{
    let chars = word_chars(w);
    let k = ci_run_exec(s, i, &chars);
    if k >= min {
        Some(i + k)
    } else {
        None
    }
}

pub fn year_exec(s: &Vec<char>, i: usize) -> (r: Option<(i32, usize)>)
    requires
        i <= s.len(),
    ensures
        match r {
            Some((y, e)) => year_at(s@, i as int) == Some((y, e as int)) && i < e <= s.len(),
            None => year_at(s@, i as int) is None,
        },
{
    if digit_at_exec(s, i) && digit_at_exec(s, i + 1) && digit_at_exec(s, i + 2) && digit_at_exec(s, i + 3) {
        let v = digit_val(s, i) * 1000 + digit_val(s, i + 1) * 100 + digit_val(s, i + 2) * 10
            + digit_val(s, i + 3);
        Some((v as i32, i + 4))
    } else {
        None
    }
}

pub fn month_exec(s: &Vec<char>, i: usize) -> (r: Option<(u32, usize)>)
    requires
        i <= s.len(),
    ensures
        match r {
            Some((m, e)) => month_at(s@, i as int) == Some((m, e as int)) && i < e <= s.len(),
            None => month_at(s@, i as int) is None,
        },
{
    if char_eq_at(s, i, '1') && digit_in(s, i + 1, '0', '2') {
        Some((10 + digit_val(s, i + 1), i + 2))
    } else if char_eq_at(s, i, '0') {
        if nonzero_at_exec(s, i + 1) {
            Some((digit_val(s, i + 1), i + 2))
        } else {
            None
        }
    } else if nonzero_at_exec(s, i) {
        Some((digit_val(s, i), i + 1))
    } else {
        None
    }
}

pub fn day_exec(s: &Vec<char>, i: usize) -> (r: Option<(u32, usize)>)
    requires
        i <= s.len(),
    ensures
        match r {
            Some((d, e)) => day_at(s@, i as int) == Some((d, e as int)) && i < e <= s.len(),
            None => day_at(s@, i as int) is None,
        },
{
    if digit_in(s, i, '1', '2') && digit_at_exec(s, i + 1) {
        Some((digit_val(s, i) * 10 + digit_val(s, i + 1), i + 2))
    } else if char_eq_at(s, i, '3') && digit_in(s, i + 1, '0', '1') {
        Some((30 + digit_val(s, i + 1), i + 2))
    } else if char_eq_at(s, i, '0') {
        if nonzero_at_exec(s, i + 1) {
            Some((digit_val(s, i + 1), i + 2))
        } else {
            None
        }
    } else if nonzero_at_exec(s, i) {
        Some((digit_val(s, i), i + 1))
    } else {
        None
    }
}

pub fn hour_exec(s: &Vec<char>, i: usize) -> (r: Option<(u32, usize)>)
    requires
        i <= s.len(),
    ensures
        match r {
            Some((h, e)) => hour_at(s@, i as int) == Some((h, e as int)) && i < e <= s.len(),
            None => hour_at(s@, i as int) is None,
        },
{
    if char_eq_at(s, i, '2') && digit_in(s, i + 1, '0', '3') {
        Some((20 + digit_val(s, i + 1), i + 2))
    } else if digit_in(s, i, '0', '1') && digit_at_exec(s, i + 1) {
        Some((digit_val(s, i) * 10 + digit_val(s, i + 1), i + 2))
    } else if digit_at_exec(s, i) {
        Some((digit_val(s, i), i + 1))
    } else {
        None
    }
}

pub fn sixty_exec(s: &Vec<char>, i: usize) -> (r: Option<(u32, usize)>)
    requires
        i <= s.len(),
    ensures
        match r {
            Some((v, e)) => sixty_at(s@, i as int) == Some((v, e as int)) && i < e <= s.len(),
            None => sixty_at(s@, i as int) is None,
        },
{
    if digit_in(s, i, '0', '5') && digit_at_exec(s, i + 1) {
        Some((digit_val(s, i) * 10 + digit_val(s, i + 1), i + 2))
    } else if digit_at_exec(s, i) {
        Some((digit_val(s, i), i + 1))
    } else {
        None
    }
}

pub fn splitter_exec(s: &Vec<char>, i: usize) -> (r: Option<usize>)
    requires
        i <= s.len(),
    ensures
        match r {
            Some(e) => splitter_end(s@, i as int) == Some(e as int) && i < e <= s.len(),
            None => splitter_end(s@, i as int) is None,
        },
{
    if char_eq_at(s, i, '—') {
        Some(i + 1)
    } else if char_eq_at(s, i, '-') && char_eq_at(s, i + 1, '-') {
        Some(i + 2)
    } else if char_eq_at(s, i, '-') {
        Some(i + 1)
    } else {
        None
    }
}

fn ws_at_exec(s: &Vec<char>, i: usize) -> (r: bool)
    ensures
        r == ws_at(s@, i as int),
{
    i < s.len() && is_blank(s[i])
}

fn date_head_exec(s: &Vec<char>, i: usize) -> (r: (Option<i32>, Option<u32>, usize))
    requires
        i <= s.len(),
    ensures
        date_head(s@, i as int) == (r.0, r.1, r.2 as int),
        i <= r.2 <= s.len(),
{
    let (y, p) = match year_exec(s, i) {
        Some((y, e)) => if char_eq_at(s, e, '/') {
            (Some(y), e + 1)
        } else {
            (None, i)
        },
        None => (None, i),
    };
    match month_exec(s, p) {
        Some((m, e)) => if char_eq_at(s, e, '/') {
            (y, Some(m), e + 1)
        } else {
            (None, None, i)
        },
        None => (None, None, i),
    }
}

pub fn date_exec(s: &Vec<char>, i: usize) -> (r: Option<(HoleyDate, usize)>)
    requires
        i <= s.len(),
    ensures
        match r {
            Some((h, e)) => date_at(s@, i as int) == Some((h, e as int)) && i < e <= s.len(),
            None => date_at(s@, i as int) is None,
        },
{
    let (y, m, p) = date_head_exec(s, i);
    if let Some((d, e)) = day_exec(s, p) {
        if splitter_exec(s, e).is_some() || char_eq_at(s, e, '/') || ws_at_exec(s, e) {
            return Some((HoleyDate { year: y, month: m, day: Some(d) }, e));
        }
    }
    match day_exec(s, i) {
        Some((d, e)) => if char_eq_at(s, e, '.') {
            match month_exec(s, e + 1) {
                Some((m, e2)) => if char_eq_at(s, e2, '.') {
                    match year_exec(s, e2 + 1) {
                        Some((y, e3)) => Some(
                            (HoleyDate { year: Some(y), month: Some(m), day: Some(d) }, e3),
                        ),
                        None => Some((HoleyDate { year: None, month: Some(m), day: Some(d) }, e2)),
                    }
                } else {
                    Some((HoleyDate { year: None, month: Some(m), day: Some(d) }, e2))
                },
                None => Some((HoleyDate { year: None, month: None, day: Some(d) }, e)),
            }
        } else {
            Some((HoleyDate { year: None, month: None, day: Some(d) }, e))
        },
        None => None,
    }
}

pub fn time_exec(s: &Vec<char>, i: usize) -> (r: Option<(Time, usize)>)
    requires
        i <= s.len(),
    ensures
        match r {
            Some((t, e)) => time_at(s@, i as int) == Some((t, e as int)) && i < e <= s.len(),
            None => time_at(s@, i as int) is None,
        },
{
    match hour_exec(s, i) {
        Some((h, e)) => if char_eq_at(s, e, ':') {
            match sixty_exec(s, e + 1) {
                Some((m, e2)) => if char_eq_at(s, e2, ':') {
                    match sixty_exec(s, e2 + 1) {
                        Some((sec, e3)) => Some((Time { hour: h, minute: m, second: sec }, e3)),
                        None => Some((Time { hour: h, minute: m, second: 0 }, e2)),
                    }
                } else {
                    Some((Time { hour: h, minute: m, second: 0 }, e2))
                },
                None => Some((Time { hour: h, minute: 0, second: 0 }, e)),
            }
        } else {
            Some((Time { hour: h, minute: 0, second: 0 }, e))
        },
        None => None,
    }
}

pub fn weekday_exec(s: &Vec<char>, i: usize) -> (r: Option<(Weekday, usize)>)
    requires
        i <= s.len(),
    ensures
        match r {
            Some((w, e)) => weekday_at(s@, i as int) == Some((w, e as int)) && i < e <= s.len(),
            None => weekday_at(s@, i as int) is None,
        },
{
    if let Some(e) = prefix_end_exec(s, i, Word::Monday, 1) {
        Some((Weekday::Monday, e))
    } else if let Some(e) = prefix_end_exec(s, i, Word::Tuesday, 2) {
        Some((Weekday::Tuesday, e))
    } else if let Some(e) = prefix_end_exec(s, i, Word::Wednesday, 1) {
        Some((Weekday::Wednesday, e))
    } else if let Some(e) = prefix_end_exec(s, i, Word::Thursday, 2) {
        Some((Weekday::Thursday, e))
    } else if let Some(e) = prefix_end_exec(s, i, Word::Friday, 1) {
        Some((Weekday::Friday, e))
    } else if let Some(e) = prefix_end_exec(s, i, Word::Saturday, 2) {
        Some((Weekday::Saturday, e))
    } else if let Some(e) = prefix_end_exec(s, i, Word::Sunday, 2) {
        Some((Weekday::Sunday, e))
    } else {
        None
    }
}

fn unit_end_exec(s: &Vec<char>, i: usize, u: Unit, f: Flavour) -> (r: Option<usize>)
    requires
        i <= s.len(),
    ensures
        match r {
            Some(e) => unit_end(s@, i as int, u, f) == Some(e as int) && i < e <= s.len(),
            None => unit_end(s@, i as int, u, f) is None,
        },
{
    match u {
        Unit::Years => prefix_end_exec(s, i, Word::Years, 1),
        Unit::Months => prefix_end_exec(
            s,
            i,
            Word::Months,
            match f {
                Flavour::DateOnly => 1,
                _ => 2,
            },
        ),
        Unit::Weeks => prefix_end_exec(s, i, Word::Weeks, 1),
        Unit::Days => prefix_end_exec(s, i, Word::Days, 1),
        Unit::Hours => prefix_end_exec(s, i, Word::Hours, 1),
        Unit::Minutes => {
            let chars = word_chars(Word::Minutes);
            let k = ci_run_exec(s, i, &chars);
            if k == 0 {
                None
            } else if k == 3 && i + 3 < s.len() && eq_ci_exec(s[i + 3], 's') {
                Some(i + 4)
            } else {
                Some(i + k)
            }
        },
        Unit::Seconds => prefix_end_exec(s, i, Word::Seconds, 1),
    }
}

fn unit_try_exec(s: &Vec<char>, i: usize, u: Unit, f: Flavour) -> (r: Option<(Unit, usize)>)
    requires
        i <= s.len(),
    ensures
        match r {
            Some((u2, e)) => unit_try(s@, i as int, u, f) == Some((u2, e as int)) && i < e <= s.len()
                && u2 == u,
            None => unit_try(s@, i as int, u, f) is None,
        },
{
    match unit_end_exec(s, i, u, f) {
        Some(e) => Some((u, e)),
        None => None,
    }
}

fn first_unit_exec(s: &Vec<char>, i: usize, f: Flavour) -> (r: Option<(Unit, usize)>)
    requires
        i <= s.len(),
    ensures
        match r {
            Some((u, e)) => first_unit(s@, i as int, f) == Some((u, e as int)) && i < e <= s.len()
                && (f is TimeOnly ==> (u is Hours || u is Minutes || u is Seconds)),
            None => first_unit(s@, i as int, f) is None,
        },
{
    let units: Vec<Unit> = match f {
        Flavour::Full => vec![
            Unit::Years,
            Unit::Months,
            Unit::Weeks,
            Unit::Days,
            Unit::Hours,
            Unit::Minutes,
            Unit::Seconds,
        ],
        Flavour::TimeOnly => vec![Unit::Hours, Unit::Minutes, Unit::Seconds],
        Flavour::DateOnly => vec![Unit::Years, Unit::Months, Unit::Weeks, Unit::Days],
    };
    let mut k: usize = 0;
    while k < units.len()
        invariant
            i <= s.len(),
            k <= units.len(),
            units@ == (match f {
                Flavour::Full => seq![
                    Unit::Years,
                    Unit::Months,
                    Unit::Weeks,
                    Unit::Days,
                    Unit::Hours,
                    Unit::Minutes,
                    Unit::Seconds,
                ],
                Flavour::TimeOnly => seq![Unit::Hours, Unit::Minutes, Unit::Seconds],
                Flavour::DateOnly => seq![Unit::Years, Unit::Months, Unit::Weeks, Unit::Days],
            }),
            forall|j: int| 0 <= j < k ==> unit_try(s@, i as int, #[trigger] units@[j], f) is None,
        decreases units.len() - k,
    {
        if let Some(found) = unit_try_exec(s, i, units[k], f) {
            return Some(found);
        }
        k += 1;
    }
    proof {
        assert(unit_try(s@, i as int, units@[0], f) is None);
        assert(unit_try(s@, i as int, units@[1], f) is None);
        assert(unit_try(s@, i as int, units@[2], f) is None);
        if !(f is TimeOnly) {
            assert(unit_try(s@, i as int, units@[3], f) is None);
        }
        if f is Full {
            assert(unit_try(s@, i as int, units@[4], f) is None);
            assert(unit_try(s@, i as int, units@[5], f) is None);
            assert(unit_try(s@, i as int, units@[6], f) is None);
        }
    }
    None
}

/// The number the digits from `i` to `e` denote, where it is no more than `0xffff_ffff`.
fn numeral_exec(s: &Vec<char>, i: usize, e: usize) -> (r: Option<u64>)
    requires
        i <= e <= s.len(),
        forall|k: int| i <= k < e ==> digit_at(s@, k),
    ensures
        r is Some <==> digits_value(s@.subrange(i as int, e as int)) <= 0xffff_ffff,
        r matches Some(v) ==> v == digits_value(s@.subrange(i as int, e as int)),
{
    let ghost t = s@.subrange(i as int, e as int);
    let mut v: u64 = 0;
    let mut j: usize = i;
    while j < e
        invariant
            i <= j <= e <= s.len(),
            t == s@.subrange(i as int, e as int),
            forall|k: int| i <= k < e ==> digit_at(s@, k),
            v == digits_value(t.subrange(0, j - i)),
            v <= 0xffff_ffff,
        decreases e - j,
    {
        let d = digit_val(s, j) as u64;
        assert(t.subrange(0, j + 1 - i).drop_last() =~= t.subrange(0, j - i));
        assert(t[j - i] == s@[j as int]);
        assert(digits_value(t.subrange(0, j + 1 - i)) == v * 10 + d);
        if v * 10 + d > 0xffff_ffff {
            proof {
                crate::text::lemma_digits_value_prefix_mono(t, (j + 1 - i) as int);
            }
            return None;
        }
        v = v * 10 + d;
        j += 1;
    }
    assert(t.subrange(0, e - i) =~= t);
    Some(v)
}

/// One interval component; the number is given where it is no more than `0xffff_ffff`.
fn component_exec(s: &Vec<char>, i: usize, f: Flavour) -> (r: Option<(Unit, Option<u64>, usize)>)
    requires
        i <= s.len(),
    ensures
        match r {
            Some((u, vo, e)) => {
                &&& component_at(s@, i as int, f) matches Some((u2, v, e2))
                &&& u2 == u
                &&& e2 == e
                &&& (vo is Some <==> v <= 0xffff_ffff)
                &&& (vo matches Some(x) ==> x == v)
                &&& i < e <= s.len()
                &&& v >= 1
                &&& (f is TimeOnly ==> (u is Hours || u is Minutes || u is Seconds))
            },
            None => component_at(s@, i as int, f) is None,
        },
{
    if nonzero_at_exec(s, i) {
        let e = skip_digits(s, i + 1);
        match first_unit_exec(s, e, f) {
            Some((u, e2)) => {
                let v = numeral_exec(s, i, e);
                proof {
                    lemma_leading_digit(s@, i as int, e as int);
                }
                Some((u, v, e2))
            },
            None => None,
        }
    } else {
        None
    }
}

fn set_unit_exec(acc: Interval, u: Unit, v: u64) -> (r: Interval)
    requires
        v <= unit_limit(u),
    ensures
        r == set_unit(acc, u, v as nat),
{
    match u {
        Unit::Years => Interval { years: v as i32, ..acc },
        Unit::Months => Interval { months: v as u32, ..acc },
        Unit::Weeks => Interval { weeks: v as u32, ..acc },
        Unit::Days => Interval { days: v as u32, ..acc },
        Unit::Hours => Interval { hours: v as u32, ..acc },
        Unit::Minutes => Interval { minutes: v as u32, ..acc },
        Unit::Seconds => Interval { seconds: v as u32, ..acc },
    }
}

pub fn interval_exec(s: &Vec<char>, i: usize, f: Flavour) -> (r: Option<(Interval, bool, usize)>)
    requires
        i <= s.len(),
    ensures
        match r {
            Some((iv, ok, e)) => interval_at(s@, i as int, f) == Some((iv, ok, e as int)) && i < e
                <= s.len() && (ok && f is TimeOnly ==> time_nonzero(iv)),
            None => interval_at(s@, i as int, f) is None,
        },
{
    let first = component_exec(s, i, f);
    if first.is_none() {
        return None;
    }
    let mut acc = Interval { years: 0, months: 0, weeks: 0, days: 0, hours: 0, minutes: 0, seconds: 0 };
    let mut ok = true;
    let mut j = i;
    let mut cur = first;
    while cur.is_some()
        invariant
            i <= j <= s.len(),
            interval_fold(s@, i as int, f, zero_interval(), true) == interval_fold(
                s@,
                j as int,
                f,
                acc,
                ok,
            ),
            component_at(s@, i as int, f) is Some,
            ok && j > i && f is TimeOnly ==> time_nonzero(acc),
            match cur {
                Some((u, vo, e)) => {
                    &&& component_at(s@, j as int, f) matches Some((u2, v, e2))
                    &&& u2 == u
                    &&& e2 == e
                    &&& (vo is Some <==> v <= 0xffff_ffff)
                    &&& (vo matches Some(x) ==> x == v)
                    &&& j < e <= s.len()
                    &&& v >= 1
                    &&& (f is TimeOnly ==> (u is Hours || u is Minutes || u is Seconds))
                },
                None => component_at(s@, j as int, f) is None,
            },
        decreases s.len() - j,
    {
        let (u, vo, e) = cur.unwrap();
        match vo {
            Some(v) => {
                if (match u {
                    Unit::Years => v <= 0x7fff_ffff,
                    _ => true,
                }) {
                    acc = set_unit_exec(acc, u, v);
                } else {
                    ok = false;
                }
            },
            None => {
                ok = false;
            },
        }
        j = e;
        cur = component_exec(s, j, f);
    }
    let ghost m = j;
    assert(j > i) by {
        if j == i {
            assert(component_at(s@, i as int, f) is None);
        }
    }
    Some((acc, ok, j))
}

fn weekdays_range_exec(s: &Vec<char>, i: usize) -> (r: Option<(Weekdays, usize)>)
    requires
        i <= s.len(),
    ensures
        match r {
            Some((w, e)) => weekdays_range_at(s@, i as int) == Some((w.bits, e as int)) && i < e
                <= s.len() && w.bits & 0x7fu8 != 0,
            None => weekdays_range_at(s@, i as int) is None,
        },
{
    match weekday_exec(s, i) {
        Some((from, e)) => {
            if char_eq_at(s, e, '-') {
                if let Some((to, e2)) = weekday_exec(s, e + 1) {
                    proof {
                        lemma_span_bits_low(from.index(), range_span(from, Some(to)) + 1);
                    }
                    return Some((Weekdays::from_range(from, Some(to)), e2));
                }
            }
            proof {
                lemma_span_bits_low(from.index(), range_span(from, None) + 1);
            }
            Some((Weekdays::from_range(from, None), e))
        },
        None => None,
    }
}

fn weekdays_ranges_exec(s: &Vec<char>, i: usize) -> (r: Option<(Weekdays, usize)>)
    requires
        i <= s.len(),
    ensures
        match r {
            Some((w, e)) => weekdays_ranges_at(s@, i as int) == Some((w.bits, e as int)) && i < e
                <= s.len() && w.bits & 0x7fu8 != 0,
            None => weekdays_ranges_at(s@, i as int) is None,
        },
{
    let (mut acc, e) = match weekdays_range_exec(s, i) {
        Some(found) => found,
        None => {
            return None;
        },
    };
    let mut j = e;
    let mut more = true;
    while more
        invariant
            i < j <= s.len(),
            weekdays_ranges_at(s@, i as int) == Some(weekdays_fold(s@, j as int, acc.bits)),
            !more ==> weekdays_fold(s@, j as int, acc.bits) == (acc.bits, j as int),
            acc.bits & 0x7fu8 != 0,
        decreases s.len() - j + (if more { 1int } else { 0int }),
    {
        more = false;
        if char_eq_at(s, j, ',') {
            if let Some((w, e2)) = weekdays_range_exec(s, j + 1) {
                proof {
                    lemma_or_low(acc.bits, w.bits);
                }
                acc = acc.union(w);
                j = e2;
                more = true;
            }
        }
    }
    Some((acc, j))
}

fn slash_or_every_exec(s: &Vec<char>, i: usize) -> (r: Option<usize>)
    requires
        i <= s.len(),
    ensures
        match r {
            Some(e) => slash_or_every(s@, i as int) == Some(e as int) && i < e <= s.len(),
            None => slash_or_every(s@, i as int) is None,
        },
{
    if char_eq_at(s, i, '/') {
        Some(i + 1)
    } else {
        prefix_end_exec(s, i, Word::Every, 5)
    }
}

fn interval_prefix_exec(s: &Vec<char>, i: usize) -> (r: Option<usize>)
    requires
        i <= s.len(),
    ensures
        match r {
            Some(e) => interval_prefix_end(s@, i as int) == Some(e as int) && i < e <= s.len(),
            None => interval_prefix_end(s@, i as int) is None,
        },
{
    match slash_or_every_exec(s, i) {
        Some(e) => Some(skip_ws(s, e)),
        None => None,
    }
}

fn weekdays_prefix_exec(s: &Vec<char>, i: usize) -> (r: Option<usize>)
    requires
        i <= s.len(),
    ensures
        match r {
            Some(e) => weekdays_prefix_end(s@, i as int) == Some(e as int) && i < e <= s.len(),
            None => weekdays_prefix_end(s@, i as int) is None,
        },
{
    let head = match slash_or_every_exec(s, i) {
        Some(e) => Some(e),
        None => prefix_end_exec(s, i, Word::On, 2),
    };
    match head {
        Some(e) => Some(skip_ws(s, e)),
        None => None,
    }
}

pub fn date_divisor_exec(s: &Vec<char>, i: usize) -> (r: Option<(DateDivisor, bool, usize)>)
    requires
        i <= s.len(),
    ensures
        match r {
            Some((d, ok, e)) => date_divisor_at(s@, i as int) == Some((d, ok, e as int)) && i < e
                <= s.len() && (d matches DateDivisor::Weekdays(w) ==> w.bits & 0x7fu8 != 0),
            None => date_divisor_at(s@, i as int) is None,
        },
{
    if let Some(p) = interval_prefix_exec(s, i) {
        if let Some((iv, ok, e)) = interval_exec(s, p, Flavour::DateOnly) {
            let d = DateInterval { years: iv.years, months: iv.months, weeks: iv.weeks, days: iv.days };
            return Some((DateDivisor::Interval(d), ok, e));
        }
    }
    match weekdays_prefix_exec(s, i) {
        Some(p) => match weekdays_ranges_exec(s, p) {
            Some((w, e)) => Some((DateDivisor::Weekdays(w), true, e)),
            None => None,
        },
        None => None,
    }
}

pub fn time_divisor_exec(s: &Vec<char>, i: usize) -> (r: Option<(TimeInterval, bool, usize)>)
    requires
        i <= s.len(),
    ensures
        match r {
            Some((t, ok, e)) => time_divisor_at(s@, i as int) == Some((t, ok, e as int)) && i < e
                <= s.len() && (ok ==> t.total_secs() > 0),
            None => time_divisor_at(s@, i as int) is None,
        },
{
    match interval_prefix_exec(s, i) {
        Some(p) => match interval_exec(s, p, Flavour::TimeOnly) {
            Some((iv, ok, e)) => Some(
                (TimeInterval { hours: iv.hours, minutes: iv.minutes, seconds: iv.seconds }, ok, e),
            ),
            None => None,
        },
        None => None,
    }
}

fn dates_range_exec(s: &Vec<char>, i: usize) -> (r: Option<(DateRange, bool, usize)>)
    requires
        i <= s.len(),
    ensures
        match r {
            Some((d, ok, e)) => dates_range_at(s@, i as int) == Some((d, ok, e as int)) && i < e
                <= s.len() && date_pattern_good(DatePattern::Range(d)),
            None => dates_range_at(s@, i as int) is None,
        },
{
    let empty = HoleyDate { year: None, month: None, day: None };
    if let Some((d, ok, e)) = date_divisor_exec(s, i) {
        return Some((DateRange { from: empty, until: None, date_divisor: d }, ok, e));
    }
    let (from, p) = match date_exec(s, i) {
        Some((h, e)) => (Some(h), e),
        None => (None, i),
    };
    let from_or_empty = match from {
        Some(h) => h,
        None => empty,
    };
    if let Some(q) = splitter_exec(s, p) {
        let (until, q2) = match date_exec(s, q) {
            Some((h, e)) => (Some(h), e),
            None => (None, q),
        };
        let q3 = skip_ws(s, q2);
        return match date_divisor_exec(s, q3) {
            Some((d, ok, e)) => Some((DateRange { from: from_or_empty, until, date_divisor: d }, ok, e)),
            None => Some(
                (
                    DateRange {
                        from: from_or_empty,
                        until,
                        date_divisor: DateDivisor::Interval(
                            DateInterval { years: 0, months: 0, weeks: 0, days: 1 },
                        ),
                    },
                    true,
                    q2,
                ),
            ),
        };
    }
    match date_exec(s, i) {
        Some((h, e)) => {
            let q = skip_ws(s, e);
            match date_divisor_exec(s, q) {
                Some((d, ok, e2)) => Some((DateRange { from: h, until: None, date_divisor: d }, ok, e2)),
                None => None,
            }
        },
        None => None,
    }
}

fn dates_pattern_exec(s: &Vec<char>, i: usize) -> (r: Option<(DatePattern, bool, usize)>)
    requires
        i <= s.len(),
    ensures
        match r {
            Some((d, ok, e)) => dates_pattern_at(s@, i as int) == Some((d, ok, e as int)) && i < e
                <= s.len() && date_pattern_good(d),
            None => dates_pattern_at(s@, i as int) is None,
        },
{
    match dates_range_exec(s, i) {
        Some((r, ok, e)) => Some((DatePattern::Range(r), ok, e)),
        None => match date_exec(s, i) {
            Some((h, e)) => Some((DatePattern::Point(h), true, e)),
            None => None,
        },
    }
}

fn dates_patterns_exec(s: &Vec<char>, i: usize) -> (r: Option<(Vec<DatePattern>, bool, usize)>)
    requires
        i <= s.len(),
    ensures
        match r {
            Some((v, ok, e)) => dates_patterns_at(s@, i as int) == Some((v@, ok, e as int)) && i < e
                <= s.len() && forall|k: int| 0 <= k < v@.len() ==> date_pattern_good(#[trigger] v@[k]),
            None => dates_patterns_at(s@, i as int) is None,
        },
{
    let (first, ok0, e0) = match dates_pattern_exec(s, i) {
        Some(found) => found,
        None => {
            return None;
        },
    };
    let mut v: Vec<DatePattern> = vec![first];
    assert(v@ =~= seq![first]);
    let mut ok = ok0;
    let mut j = e0;
    let mut more = true;
    while more
        invariant
            i < j <= s.len(),
            dates_patterns_at(s@, i as int) == Some(dates_fold(s@, j as int, v@, ok)),
            !more ==> dates_fold(s@, j as int, v@, ok) == (v@, ok, j as int),
            forall|k: int| 0 <= k < v@.len() ==> date_pattern_good(#[trigger] v@[k]),
        decreases s.len() - j + (if more { 1int } else { 0int }),
    {
        more = false;
        if char_eq_at(s, j, ',') {
            if let Some((p, ok2, e)) = dates_pattern_exec(s, j + 1) {
                v.push(p);
                ok = ok && ok2;
                j = e;
                more = true;
            }
        }
    }
    Some((v, ok, j))
}

fn time_range_exec(s: &Vec<char>, i: usize) -> (r: Option<(TimeRange, bool, usize)>)
    requires
        i <= s.len(),
    ensures
        match r {
            Some((t, ok, e)) => time_range_at(s@, i as int) == Some((t, ok, e as int)) && i < e
                <= s.len() && (ok ==> t.interval.total_secs() > 0),
            None => time_range_at(s@, i as int) is None,
        },
{
    if let Some((iv, ok, e)) = time_divisor_exec(s, i) {
        return Some((TimeRange { from: None, until: None, interval: iv }, ok, e));
    }
    let (from, p) = match time_exec(s, i) {
        Some((t, e)) => (Some(t), e),
        None => (None, i),
    };
    if let Some(q) = splitter_exec(s, p) {
        let (until, q2) = match time_exec(s, q) {
            Some((t, e)) => (Some(t), e),
            None => (None, q),
        };
        let q3 = skip_ws(s, q2);
        if let Some((iv, ok, e)) = time_divisor_exec(s, q3) {
            return Some((TimeRange { from, until, interval: iv }, ok, e));
        }
    }
    match time_exec(s, i) {
        Some((t, e)) => {
            let q = skip_ws(s, e);
            match time_divisor_exec(s, q) {
                Some((iv, ok, e2)) => Some((TimeRange { from: Some(t), until: None, interval: iv }, ok, e2)),
                None => None,
            }
        },
        None => None,
    }
}

fn time_pattern_exec(s: &Vec<char>, i: usize) -> (r: Option<(TimePattern, bool, usize)>)
    requires
        i <= s.len(),
    ensures
        match r {
            Some((t, ok, e)) => time_pattern_at(s@, i as int) == Some((t, ok, e as int)) && i < e
                <= s.len() && (ok ==> time_pattern_good(t)),
            None => time_pattern_at(s@, i as int) is None,
        },
{
    match time_range_exec(s, i) {
        Some((r, ok, e)) => Some((TimePattern::Range(r), ok, e)),
        None => match time_exec(s, i) {
            Some((t, e)) => Some((TimePattern::Point(t), true, e)),
            None => None,
        },
    }
}

fn time_patterns_exec(s: &Vec<char>, i: usize) -> (r: Option<(Vec<TimePattern>, bool, usize)>)
    requires
        i <= s.len(),
    ensures
        match r {
            Some((v, ok, e)) => time_patterns_at(s@, i as int) == Some((v@, ok, e as int)) && i < e
                <= s.len() && (ok ==> forall|k: int|
                0 <= k < v@.len() ==> time_pattern_good(#[trigger] v@[k])),
            None => time_patterns_at(s@, i as int) is None,
        },
{
    let p = match prefix_end_exec(s, i, Word::At, 2) {
        Some(e) => e,
        None => i,
    };
    let q = skip_ws(s, p);
    let (first, ok0, e0) = match time_pattern_exec(s, q) {
        Some(found) => found,
        None => {
            return None;
        },
    };
    let mut v: Vec<TimePattern> = vec![first];
    assert(v@ =~= seq![first]);
    let mut ok = ok0;
    let mut j = e0;
    let mut more = true;
    while more
        invariant
            i < j <= s.len(),
            time_patterns_at(s@, i as int) == Some(time_fold(s@, j as int, v@, ok)),
            !more ==> time_fold(s@, j as int, v@, ok) == (v@, ok, j as int),
            ok ==> forall|k: int| 0 <= k < v@.len() ==> time_pattern_good(#[trigger] v@[k]),
        decreases s.len() - j + (if more { 1int } else { 0int }),
    {
        more = false;
        if char_eq_at(s, j, ',') {
            if let Some((tp, ok2, e)) = time_pattern_exec(s, j + 1) {
                v.push(tp);
                ok = ok && ok2;
                j = e;
                more = true;
            }
        }
    }
    Some((v, ok, j))
}

fn pattern_follow_exec(s: &Vec<char>, i: usize) -> (r: bool)
    requires
        i <= s.len(),
    ensures
        r == pattern_follow(s@, i as int),
{
    ws_at_exec(s, i) || i == s.len() || char_eq_at(s, i, '!')
}

fn recurrence_exec(s: &Vec<char>, i: usize) -> (r: Option<(Vec<DatePattern>, Vec<TimePattern>, bool, usize)>)
    requires
        i <= s.len(),
    ensures
        match r {
            Some((ds, ts, ok, e)) => {
                &&& recurrence_at(s@, i as int) == Some((ds@, ts@, ok, e as int))
                &&& i < e <= s.len()
                &&& forall|k: int| 0 <= k < ds@.len() ==> date_pattern_good(#[trigger] ds@[k])
                &&& ok ==> forall|k: int| 0 <= k < ts@.len() ==> time_pattern_good(#[trigger] ts@[k])
            },
            None => recurrence_at(s@, i as int) is None,
        },
{
    if let Some((ds, ok, e)) = dates_patterns_exec(s, i) {
        if ws_at_exec(s, e) {
            let p = skip_ws(s, e);
            if let Some((ts, ok2, e2)) = time_patterns_exec(s, p) {
                if pattern_follow_exec(s, e2) {
                    return Some((ds, ts, ok && ok2, e2));
                }
            }
        }
    }
    match time_patterns_exec(s, i) {
        Some((ts, ok, e)) => if pattern_follow_exec(s, e) {
            let ds: Vec<DatePattern> = Vec::new();
            assert(ds@ =~= Seq::<DatePattern>::empty());
            Some((ds, ts, ok, e))
        } else {
            None
        },
        None => None,
    }
}

fn countdown_one_exec(s: &Vec<char>, i: usize) -> (r: Option<(Interval, bool, usize)>)
    requires
        i <= s.len(),
    ensures
        match r {
            Some((iv, ok, e)) => countdown_one_at(s@, i as int) == Some((iv, ok, e as int)) && i < e
                <= s.len(),
            None => countdown_one_at(s@, i as int) is None,
        },
{
    let head = match prefix_end_exec(s, i, Word::After, 5) {
        Some(e) => Some(e),
        None => match prefix_end_exec(s, i, Word::In, 2) {
            Some(e) => Some(e),
            None => if char_eq_at(s, i, '+') {
                Some(i + 1)
            } else {
                None
            },
        },
    };
    let p = match head {
        Some(e) => e,
        None => i,
    };
    let q = skip_ws(s, p);
    interval_exec(s, q, Flavour::Full)
}

fn countdown_exec(s: &Vec<char>, i: usize) -> (r: Option<(Vec<Interval>, bool, usize)>)
    requires
        i <= s.len(),
    ensures
        match r {
            Some((v, ok, e)) => countdown_at(s@, i as int) == Some((v@, ok, e as int)) && i < e
                <= s.len(),
            None => countdown_at(s@, i as int) is None,
        },
{
    let (first, ok0, e0) = match countdown_one_exec(s, i) {
        Some(found) => found,
        None => {
            return None;
        },
    };
    let mut v: Vec<Interval> = vec![first];
    assert(v@ =~= seq![first]);
    let mut ok = ok0;
    let mut j = e0;
    let mut more = true;
    while more
        invariant
            i < j <= s.len(),
            countdown_one_at(s@, i as int) == Some((first, ok0, e0 as int)),
            countdown_fold(s@, e0 as int, seq![first], ok0) == countdown_fold(s@, j as int, v@, ok),
            !more ==> countdown_fold(s@, j as int, v@, ok) == (v@, ok, j as int),
        decreases s.len() - j + (if more { 1int } else { 0int }),
    {
        more = false;
        if char_eq_at(s, j, ',') {
            if let Some((iv, ok2, e)) = countdown_one_exec(s, j + 1) {
                v.push(iv);
                ok = ok && ok2;
                j = e;
                more = true;
            }
        }
    }
    if pattern_follow_exec(s, j) {
        Some((v, ok, j))
    } else {
        None
    }
}

fn field_end_exec(s: &Vec<char>, i: usize) -> (r: usize)
    requires
        i <= s.len(),
    ensures
        r == field_end(s@, i as int),
        i <= r <= s.len(),
{
    let mut j = i;
    while j < s.len() && !is_blank(s[j]) && s[j] != '!'
        invariant
            i <= j <= s.len(),
            field_end(s@, i as int) == field_end(s@, j as int),
        decreases s.len() - j,
    {
        j += 1;
    }
    j
}

/// The cron expression: where it starts and ends.
fn cron_exec(s: &Vec<char>, i: usize) -> (r: Option<(usize, usize)>)
    requires
        i <= s.len(),
    ensures
        match r {
            Some((q, e)) => cron_at(s@, i as int) == Some((s@.subrange(q as int, e as int), e as int))
                && q <= e <= s.len() && i < e,
            None => cron_at(s@, i as int) is None,
        },
{
    let p = match prefix_end_exec(s, i, Word::Cron, 5) {
        Some(p) => p,
        None => {
            return None;
        },
    };
    let q = skip_ws(s, p);
    let mut j = q;
    let mut n: usize = 4;
    loop
        invariant
            i < p <= q <= j <= s.len(),
            n <= 4,
            prefix_end(s@, i as int, Word::Cron, 5) == Some(p as int),
            q == ws_end(s@, p as int),
            cron_fields_end(s@, q as int, 4) == cron_fields_end(s@, j as int, n as nat),
        decreases n,
    {
        let e = field_end_exec(s, j);
        if e <= j {
            return None;
        }
        if n == 0 {
            return Some((q, e));
        }
        if !ws_at_exec(s, e) {
            return None;
        }
        j = skip_ws(s, e);
        n -= 1;
    }
}

fn nag_exec(s: &Vec<char>, i: usize) -> (r: Option<(Interval, bool, usize)>)
    requires
        i <= s.len(),
    ensures
        match r {
            Some((iv, ok, e)) => nag_at(s@, i as int) == Some((iv, ok, e as int)) && i < e <= s.len(),
            None => nag_at(s@, i as int) is None,
        },
{
    if char_eq_at(s, i, '!') {
        match interval_exec(s, i + 1, Flavour::Full) {
            Some((iv, ok, e)) => if ws_at_exec(s, e) || e == s.len() {
                Some((iv, ok, e))
            } else {
                None
            },
            None => None,
        }
    } else {
        None
    }
}

/// The description after blanks: where it starts and ends.
fn description_exec(s: &Vec<char>, i: usize) -> (r: Option<(usize, usize)>)
    requires
        i <= s.len(),
    ensures
        match r {
            Some((p, e)) => description_at(s@, i as int) == Some(
                (s@.subrange(p as int, e as int), e as int),
            ) && i <= p <= e <= s.len(),
            None => description_at(s@, i as int) is None,
        },
{
    if !ws_at_exec(s, i) {
        return None;
    }
    let p = skip_ws(s, i);
    if p >= s.len() {
        return None;
    }
    let mut j = p;
    let mut last = p;
    while j < s.len()
        invariant
            p <= last <= j <= s.len(),
            desc_scan(s@, p as int, p as int) == desc_scan(s@, j as int, last as int),
        decreases s.len() - j,
    {
        if !is_blank(s[j]) {
            last = j + 1;
        }
        j += 1;
    }
    Some((p, last))
}

/// The characters from `a` to `b`, as a string.
fn string_of(s: &Vec<char>, a: usize, b: usize) -> (r: String)
    requires
        a <= b <= s.len(),
    ensures
        r@ == s@.subrange(a as int, b as int),
{
    let mut out = String::new();
    let mut j = a;
    while j < b
        invariant
            a <= j <= b <= s.len(),
            out@ == s@.subrange(a as int, j as int),
        decreases b - j,
    {
        push_char(&mut out, s[j]);
        assert(s@.subrange(a as int, j + 1) =~= s@.subrange(a as int, j as int).push(s@[j as int]));
        j += 1;
    }
    out
}

/// Reads a reminder: its pattern, nag interval and description. There is none where the
/// text does not follow the grammar, or where a number in it does not fit its field.
pub fn parse_reminder(text: &str) -> (r: Option<Reminder>)
    ensures
        r is Some <==> (reminder_text(text@) matches Some((_, ok)) && ok),
        r matches Some(rem) ==> reads_as(rem, reminder_text(text@).unwrap().0),
        r matches Some(rem) ==> (rem.pattern matches Some(p) && p.wf()),
{
    let s = chars_of(text);
    let p = skip_ws(&s, 0);
    let ghost sp = pattern_at(s@, p as int);
    let (pattern, e) = if let Some((q, e)) = cron_exec(&s, p) {
        (ReminderPattern::Cron(Cron { expr: string_of(&s, q, e) }), e)
    } else if let Some((ds, ts, ok, e)) = recurrence_exec(&s, p) {
        if !ok {
            return None;
        }
        (ReminderPattern::Recurrence(Recurrence::from_parts(ds, ts)), e)
    } else if let Some((ivs, ok, e)) = countdown_exec(&s, p) {
        if !ok {
            return None;
        }
        (ReminderPattern::Countdown(Countdown { durations: ivs }), e)
    } else {
        return None;
    };
    let (nag_interval, e2) = match nag_exec(&s, e) {
        Some((iv, ok, e2)) => {
            if !ok {
                return None;
            }
            (Some(iv), e2)
        },
        None => (None, e),
    };
    let (description, e3) = match description_exec(&s, e2) {
        Some((a, b)) => (Some(Description(string_of(&s, a, b))), b),
        None => (None, e2),
    };
    if skip_ws(&s, e3) != s.len() {
        return None;
    }
    Some(Reminder { description, pattern: Some(pattern), nag_interval })
}

} // verus!
