//! The decisions of the loop that sends due reminders.
use vstd::prelude::*;

use crate::calendar::{datetime_add_secs, datetime_lt, datetime_lt_exec, spec_datetime_add_secs, DateTime};
use crate::serializers::Pattern;
use crate::zone::{local_time, spec_local_time, spec_utc_time, utc_time};

verus! {

/// How long the loop waits at most before it looks for due reminders again, in seconds.
pub const DEFAULT_CHECK_INTERVAL_SECS: i64 = 60;

/// A nagging occurrence to record for a reminder as it is sent: due when the reminder
/// was, repeated every `nag_interval_sec` seconds until the reminder's next time.
#[derive(Debug, Clone, Copy, PartialEq, Eq, Structural)]
pub struct OccurrencePlan {
    pub due_at: DateTime,
    pub nag_interval_sec: i64,
    pub stop_at: Option<DateTime>,
}

/// What becomes of a due reminder: the time and pattern of the reminder that follows it
/// (none where the pattern is done), and the nagging occurrence to record.
#[derive(Debug)]
pub struct DuePlan {
    pub next: Option<(DateTime, Pattern)>,
    pub occurrence: Option<OccurrencePlan>,
}

/// The later of two times.
pub open spec fn later_of(a: DateTime, b: DateTime) -> DateTime {
    if datetime_lt(a, b) {
        b
    } else {
        a
    }
}

/// The reminder that follows one due at `time`: its pattern stepped past the later of
/// `time` and `now`.
pub open spec fn spec_next_reminder(time: DateTime, pattern: Option<Pattern>, now: DateTime) -> Option<
    (DateTime, Pattern),
> {
    match pattern {
        Some(p) => {
            let (p2, t) = p.spec_step(later_of(time, now));
            match t {
                Some(t) => Some((t, p2)),
                None => None,
            }
        },
        None => None,
    }
}

/// Decides what becomes of a reminder due at `time`, as the loop sends it at `now`, both in
/// the user's wall-clock time.
pub fn plan_due_reminder_at(time: &DateTime, pattern: Option<Pattern>, nag_interval_sec: Option<i64>, now: &DateTime) -> (r: DuePlan)
    requires
        time.wf(),
        now.wf(),
        pattern matches Some(p) ==> p.wf(),
    ensures
        r.next == spec_next_reminder(*time, pattern, *now),
        r.occurrence == (match nag_interval_sec {
            Some(n) => Some(OccurrencePlan {
                due_at: *time,
                nag_interval_sec: n,
                stop_at: match spec_next_reminder(*time, pattern, *now) {
                    Some((t, _)) => Some(t),
                    None => None,
                },
            }),
            None => None,
        }),
        r.next matches Some((t, p)) ==> t.wf() && p.wf(),
        pattern matches Some(p) && p is Recurrence && r.next is Some ==> datetime_lt(*time, r.next.unwrap().0)
            && datetime_lt(*now, r.next.unwrap().0),
{
    let lower_bound = if datetime_lt_exec(time, now) {
        *now
    } else {
        *time
    };
    let next = match pattern {
        Some(mut p) => match p.next(&lower_bound) {
            Some(t) => {
                proof {
                    crate::calendar::lemma_date_order_total(time.date, now.date);
                }
                Some((t, p))
            },
            None => None,
        },
        None => None,
    };
    let next_time = match next {
        Some((t, _)) => Some(t),
        None => None,
    };
    let occurrence = match nag_interval_sec {
        Some(n) => Some(OccurrencePlan { due_at: *time, nag_interval_sec: n, stop_at: next_time }),
        None => None,
    };
    DuePlan { next, occurrence }
}

/// The reminder that follows one due at `time` (UTC), its pattern stepped in the wall-clock
/// time of the timezone named `tz` past the later of `time` and `now` (UTC), and its time
/// told in UTC again; none where a time cannot be told in the timezone.
pub open spec fn spec_next_reminder_utc(
    time: DateTime,
    pattern: Option<Pattern>,
    tz: Seq<char>,
    now: DateTime,
) -> Option<(DateTime, Pattern)> {
    match (spec_local_time(tz, time), spec_local_time(tz, now)) {
        (Some(lt), Some(ln)) => match spec_next_reminder(lt, pattern, ln) {
            Some((t, p)) => match spec_utc_time(tz, t) {
                Some(u) => Some((u, p)),
                None => None,
            },
            None => None,
        },
        _ => None,
    }
}

/// Decides what becomes of a reminder due at `time`, as the loop sends it at `now`, both in
/// UTC; `tz` names the user's timezone, in whose wall-clock time the pattern is stepped.
/// The nagging occurrence is due at `time` and stops at the next reminder's time.
pub fn plan_due_reminder(
    time: &DateTime,
    pattern: Option<Pattern>,
    nag_interval_sec: Option<i64>,
    tz: &str,
    now: &DateTime,
) -> (r: DuePlan)
    requires
        pattern matches Some(p) ==> p.wf(),
    ensures
        r.next == spec_next_reminder_utc(*time, pattern, tz@, *now),
        r.occurrence == (match nag_interval_sec {
            Some(n) => Some(OccurrencePlan {
                due_at: *time,
                nag_interval_sec: n,
                stop_at: match spec_next_reminder_utc(*time, pattern, tz@, *now) {
                    Some((t, _)) => Some(t),
                    None => None,
                },
            }),
            None => None,
        }),
        r.next matches Some((t, p)) ==> t.wf() && p.wf(),
        // A recurring reminder moves on, in the user's wall-clock time, past both the time it
        // was due and the current time.
        pattern matches Some(p) && p is Recurrence ==> match (
            spec_local_time(tz@, *time),
            spec_local_time(tz@, *now),
        ) {
            (Some(lt), Some(ln)) => match spec_next_reminder(lt, pattern, ln) {
                Some((t, _)) => datetime_lt(lt, t) && datetime_lt(ln, t),
                None => true,
            },
            _ => true,
        },
{
    let local = match (local_time(tz, time), local_time(tz, now)) {
        (Some(lt), Some(ln)) => Some(plan_due_reminder_at(&lt, pattern, None, &ln).next),
        _ => None,
    };
    let next = match local {
        Some(Some((t, p))) => match utc_time(tz, &t) {
            Some(u) => Some((u, p)),
            None => None,
        },
        _ => None,
    };
    let next_time = match next {
        Some((t, _)) => Some(t),
        None => None,
    };
    let occurrence = match nag_interval_sec {
        Some(n) => Some(OccurrencePlan { due_at: *time, nag_interval_sec: n, stop_at: next_time }),
        None => None,
    };
    DuePlan { next, occurrence }
}

/// Whether the buttons of the previous reminder message are to be taken away once a new
/// one has been sent: where there was one, and it is another message.
pub fn needs_markup_clear(prev_msg_id: Option<i32>, new_msg_id: i32) -> (r: bool)
    ensures
        r == (prev_msg_id matches Some(p) && p != new_msg_id),
{
    match prev_msg_id {
        Some(p) => p != new_msg_id,
        None => false,
    }
}

/// When the loop next looks for due reminders: at the next reminder's time, or a minute
/// from `now` where there is none (none where that minute leaves the calendar).
pub fn next_wakeup(next_reminder: Option<DateTime>, now: &DateTime) -> (r: Option<DateTime>)
    requires
        now.wf(),
    ensures
        r == (match next_reminder {
            Some(t) => Some(t),
            None => spec_datetime_add_secs(*now, DEFAULT_CHECK_INTERVAL_SECS as int),
        }),
{
    match next_reminder {
        Some(t) => Some(t),
        None => datetime_add_secs(now, DEFAULT_CHECK_INTERVAL_SECS),
    }
}

} // verus!
