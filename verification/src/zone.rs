//! Wall-clock time in a user's timezone, and back: the tables are `chrono-tz`'s.
use chrono::{Datelike, Offset, TimeZone, Timelike};
use vstd::prelude::*;

use crate::calendar::{valid_ymd, Date, DateTime, TimeOfDay, SECS_PER_DAY};

verus! {

/// The wall-clock time (year, month, day, seconds since midnight) in the timezone named
/// `tz` (an IANA name such as `Europe/Moscow`) at the given UTC time, as `chrono-tz`'s
/// tables give it; `None` where the name is unknown, the UTC time does not exist, or the
/// wall-clock time leaves `chrono`'s range.
pub uninterp spec fn spec_local_of(tz: Seq<char>, year: i32, month: u32, day: u32, secs: u32) -> Option<
    (i32, u32, u32, u32),
>;

/// The UTC time at which the clocks of the timezone named `tz` show the given wall-clock
/// time, the earlier one where they show it twice; `None` where the name is unknown, the
/// wall-clock time does not exist there (the clocks skip it) or the UTC time leaves
/// `chrono`'s range.
pub uninterp spec fn spec_utc_of(tz: Seq<char>, year: i32, month: u32, day: u32, secs: u32) -> Option<
    (i32, u32, u32, u32),
>;

/// `chrono_tz::Tz::from_str`, `TimeZone::offset_from_utc_datetime` and
/// `NaiveDateTime::checked_add_offset`: the wall-clock time in a timezone at a UTC time.
/// The contract names the result and claims that it is a valid date and time of day.
#[verifier::external_body]
pub(crate) fn local_of(tz: &str, year: i32, month: u32, day: u32, secs: u32) -> (r: Option<
    (i32, u32, u32, u32),
>)
    ensures
        r == spec_local_of(tz@, year, month, day, secs),
        r matches Some(t) ==> valid_ymd(t.0 as int, t.1 as int, t.2 as int) && t.3 < SECS_PER_DAY,
{
    let zone: chrono_tz::Tz = tz.parse().ok()?;
    let time = chrono::NaiveTime::from_num_seconds_from_midnight_opt(secs, 0)?;
    let utc = chrono::NaiveDate::from_ymd_opt(year, month, day)?.and_time(time);
    let local = utc.checked_add_offset(zone.offset_from_utc_datetime(&utc).fix())?;
    Some((local.year(), local.month(), local.day(), local.num_seconds_from_midnight()))
}

/// `chrono_tz::Tz::from_str`, `TimeZone::from_local_datetime`, `LocalResult::earliest` and
/// `DateTime::naive_utc`: the UTC time of a wall-clock time in a timezone. The contract
/// names the result and claims that it is a valid date and time of day.
#[verifier::external_body]
pub(crate) fn utc_of(tz: &str, year: i32, month: u32, day: u32, secs: u32) -> (r: Option<
    (i32, u32, u32, u32),
>)
    ensures
        r == spec_utc_of(tz@, year, month, day, secs),
        r matches Some(t) ==> valid_ymd(t.0 as int, t.1 as int, t.2 as int) && t.3 < SECS_PER_DAY,
{
    let zone: chrono_tz::Tz = tz.parse().ok()?;
    let time = chrono::NaiveTime::from_num_seconds_from_midnight_opt(secs, 0)?;
    let local = chrono::NaiveDate::from_ymd_opt(year, month, day)?.and_time(time);
    let utc = zone.from_local_datetime(&local).earliest()?.naive_utc();
    Some((utc.year(), utc.month(), utc.day(), utc.num_seconds_from_midnight()))
}

pub open spec fn from_parts(t: Option<(i32, u32, u32, u32)>) -> Option<DateTime> {
    match t {
        Some(t) => Some(
            DateTime { date: Date { year: t.0, month: t.1, day: t.2 }, time: TimeOfDay { secs: t.3 } },
        ),
        None => None,
    }
}

/// The wall-clock time in the timezone named `tz` at the UTC time `utc`.
pub open spec fn spec_local_time(tz: Seq<char>, utc: DateTime) -> Option<DateTime> {
    from_parts(spec_local_of(tz, utc.date.year, utc.date.month, utc.date.day, utc.time.secs))
}

/// The UTC time of the wall-clock time `local` in the timezone named `tz`.
pub open spec fn spec_utc_time(tz: Seq<char>, local: DateTime) -> Option<DateTime> {
    from_parts(spec_utc_of(tz, local.date.year, local.date.month, local.date.day, local.time.secs))
}

/// The wall-clock time in the timezone named `tz` at the UTC time `utc`.
pub fn local_time(tz: &str, utc: &DateTime) -> (r: Option<DateTime>)
    ensures
        r == spec_local_time(tz@, *utc),
        r matches Some(t) ==> t.wf(),
{
    match local_of(tz, utc.date.year, utc.date.month, utc.date.day, utc.time.secs) {
        Some((year, month, day, secs)) => Some(
            DateTime { date: Date { year, month, day }, time: TimeOfDay { secs } },
        ),
        None => None,
    }
}

/// The UTC time of the wall-clock time `local` in the timezone named `tz` (the earlier
/// where the clocks show it twice).
pub fn utc_time(tz: &str, local: &DateTime) -> (r: Option<DateTime>)
    ensures
        r == spec_utc_time(tz@, *local),
        r matches Some(t) ==> t.wf(),
{
    match utc_of(tz, local.date.year, local.date.month, local.date.day, local.time.secs) {
        Some((year, month, day, secs)) => Some(
            DateTime { date: Date { year, month, day }, time: TimeOfDay { secs } },
        ),
        None => None,
    }
}

} // verus!
