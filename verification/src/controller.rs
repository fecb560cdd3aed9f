//! What the bot answers to a user's request, once the database has been asked.
use vstd::prelude::*;

use crate::calendar::DateTime;
use crate::generic_reminder::{
    escape_mentions, spec_escape_mentions, spec_to_unescaped_string, to_unescaped_string,
    ReminderEntry,
};
use crate::lang::{Language, DEFAULT_LANGUAGE};
use crate::callbacks::{spec_reminder_alter, spec_reminder_page, ReminderListKind};
use crate::markup::{
    entries_view, keyboard_view, move_row, page_bounds, reminders_page_markup, spec_page_bounds,
    spec_reminders_page_markup, Keyboard, ReminderMarkupEntry,
};
use crate::text::{int_to_decimal, push_char, push_i64_decimal};
use crate::parsers::ParseError;
use crate::tg::TgResponse;

verus! {

/// Which part of a reminder is being edited.
#[derive(Debug, Clone, Copy, PartialEq, Eq, Structural)]
pub enum EditMode {
    TimePattern,
    Description,
}

/// How many reminders a page of a list to pick from holds.
pub const REMINDERS_PER_PAGE: usize = 45;

/// The id of the reminders a message sets: `chat:message`.
pub fn new_rec_id(chat_id: i64, msg_id: i32) -> (r: String)
    ensures
        r@ == int_to_decimal(chat_id as int) + seq![':'] + int_to_decimal(msg_id as int),
{
    let mut s = String::new();
    push_i64_decimal(&mut s, chat_id);
    push_char(&mut s, ':');
    push_i64_decimal(&mut s, msg_id as i64);
    assert(s@ =~= int_to_decimal(chat_id as int) + seq![':'] + int_to_decimal(msg_id as int));
    s
}

/// The answer to a text that could not be read as a reminder, by the reason.
pub open spec fn spec_parse_error_reply(e: ParseError) -> TgResponse {
    match e {
        ParseError::InvalidFormat => TgResponse::IncorrectRequest,
        ParseError::DateInPast => TgResponse::DateInPast,
        ParseError::TimeRangeEndBeforeStart => TgResponse::TimeRangeEndBeforeStart,
        ParseError::DateRangeEndBeforeStart => TgResponse::DateRangeEndBeforeStart,
        ParseError::TimeIntervalTooLargeForRange => TgResponse::TimeIntervalTooLargeForRange,
        ParseError::DateIntervalTooLargeForRange => TgResponse::DateIntervalTooLargeForRange,
        ParseError::NagIntervalUnsupportedUnit => TgResponse::NagIntervalUnsupportedUnit,
        ParseError::CronExpressionInvalid => TgResponse::CronExpressionInvalid,
    }
}

/// The answer to a text that could not be read as a reminder: the message that names
/// the reason, or the plain "incorrect request" where the text is not a reminder at all.
pub fn parse_error_reply(e: ParseError) -> (r: TgResponse)
    ensures
        r == spec_parse_error_reply(e),
{
    match e {
        ParseError::InvalidFormat => TgResponse::IncorrectRequest,
        ParseError::DateInPast => TgResponse::DateInPast,
        ParseError::TimeRangeEndBeforeStart => TgResponse::TimeRangeEndBeforeStart,
        ParseError::DateRangeEndBeforeStart => TgResponse::DateRangeEndBeforeStart,
        ParseError::TimeIntervalTooLargeForRange => TgResponse::TimeIntervalTooLargeForRange,
        ParseError::DateIntervalTooLargeForRange => TgResponse::DateIntervalTooLargeForRange,
        ParseError::NagIntervalUnsupportedUnit => TgResponse::NagIntervalUnsupportedUnit,
        ParseError::CronExpressionInvalid => TgResponse::CronExpressionInvalid,
    }
}

/// The answer to a new reminder: `outcome` is why the text could not be read, or, for a
/// text that was read, the stored reminder's text where it was stored and an error where
/// storing failed. A text that cannot be read is answered in a private chat (where the
/// user and the chat are one) and passed over elsewhere.
pub fn set_reminder_reply(outcome: Result<Result<String, ()>, ParseError>, user_id: u64, chat_id: i64) -> (r:
    Option<TgResponse>)
    ensures
        match outcome {
            Ok(Ok(s)) => r matches Some(TgResponse::SuccessInsert(t)) && t@ == spec_escape_mentions(
                s@,
            ),
            Ok(Err(())) => r matches Some(TgResponse::FailedInsert),
            Err(e) => if user_id == chat_id as u64 {
                r == Some(spec_parse_error_reply(e))
            } else {
                r is None
            },
        },
{
    match outcome {
        Ok(Ok(s)) => Some(TgResponse::SuccessInsert(escape_mentions(s.as_str()))),
        Ok(Err(())) => Some(TgResponse::FailedInsert),
        Err(e) => if user_id == chat_id as u64 {
            Some(parse_error_reply(e))
        } else {
            None
        },
    }
}

/// The text that sets a reminder anew from a new time pattern: the pattern, a space and
/// the old description.
pub fn edit_time_pattern_text(time_pattern: &str, desc: &str) -> (r: String)
    ensures
        r@ == time_pattern@ + seq![' '] + desc@,
{
    let mut s = String::from_str(time_pattern);
    push_char(&mut s, ' ');
    s.append(desc);
    assert(s@ =~= time_pattern@ + seq![' '] + desc@);
    s
}

/// The answer to an edit: `old` is the reminder edited as text (none where it is not
/// found, an error where the lookup failed), `new_text` the edited reminder as text
/// where it could be made, `stored` whether the change was stored. The first part tells
/// whether the edit took.
pub fn replace_reminder_reply(old: Result<Option<String>, ()>, new_text: Option<String>, stored: bool) -> (r: (
    bool,
    TgResponse,
))
    ensures
        match old {
            Ok(Some(o)) => match new_text {
                Some(n) => if stored {
                    r.0 && (r.1 matches TgResponse::SuccessEdit(a, b) && a@ == o@ && b@ == n@)
                } else {
                    !r.0 && r.1 is FailedEdit
                },
                None => !r.0 && r.1 is FailedEdit,
            },
            Ok(None) => !r.0 && r.1 is EditReminderNotFound,
            Err(()) => !r.0 && r.1 is FailedEdit,
        },
{
    match old {
        Ok(Some(o)) => match new_text {
            Some(n) => if stored {
                (true, TgResponse::SuccessEdit(o, n))
            } else {
                (false, TgResponse::FailedEdit)
            },
            None => (false, TgResponse::FailedEdit),
        },
        Ok(None) => (false, TgResponse::EditReminderNotFound),
        Err(()) => (false, TgResponse::FailedEdit),
    }
}

/// What an edited message does after its answer: where it had set a reminder, that
/// reminder is replaced and its open nagging occurrences closed; otherwise the message
/// sets a new reminder and is linked to it too. (link the edited message, close open
/// occurrences)
pub fn edited_message_plan(had_reminder: bool) -> (r: (bool, bool))
    ensures
        r == (!had_reminder, had_reminder),
{
    (!had_reminder, had_reminder)
}

/// The answer to an edited message that sets a new reminder: where there is none to
/// give, it is that the request is not understood.
pub fn edited_message_reply(reply: Option<TgResponse>) -> (r: TgResponse)
    ensures
        match reply {
            Some(t) => r == t,
            None => r is IncorrectRequest,
        },
{
    match reply {
        Some(t) => t,
        None => TgResponse::IncorrectRequest,
    }
}

/// The answer to deleting a reminder: `found` is the reminder as text (none where it is
/// not found, an error where the lookup failed), `deleted` whether deleting it worked.
pub fn delete_reminder_reply(found: Result<Option<String>, ()>, deleted: bool) -> (r: TgResponse)
    ensures
        match found {
            Ok(Some(s)) => if deleted {
                r matches TgResponse::SuccessDelete(t) && t@ == s@
            } else {
                r is FailedDelete
            },
            _ => r is FailedDelete,
        },
{
    match found {
        Ok(Some(s)) => if deleted {
            TgResponse::SuccessDelete(s)
        } else {
            TgResponse::FailedDelete
        },
        _ => TgResponse::FailedDelete,
    }
}

/// The answer to pausing or resuming a reminder: `found` as for deleting, `toggled`
/// whether the reminder is paused now (an error where toggling failed). The first part
/// tells whether its open nagging occurrences are to be closed: where it was paused.
pub fn pause_reminder_reply(found: Result<Option<String>, ()>, toggled: Result<bool, ()>) -> (r: (
    bool,
    TgResponse,
))
    ensures
        match found {
            Ok(Some(s)) => match toggled {
                Ok(true) => r.0 && (r.1 matches TgResponse::SuccessPause(t) && t@ == s@),
                Ok(false) => !r.0 && (r.1 matches TgResponse::SuccessResume(t) && t@ == s@),
                Err(()) => !r.0 && r.1 is FailedPause,
            },
            _ => !r.0 && r.1 is FailedPause,
        },
{
    match found {
        Ok(Some(s)) => match toggled {
            Ok(true) => (true, TgResponse::SuccessPause(s)),
            Ok(false) => (false, TgResponse::SuccessResume(s)),
            Err(()) => (false, TgResponse::FailedPause),
        },
        _ => (false, TgResponse::FailedPause),
    }
}

/// What the user is asked for once they have chosen what to edit.
pub fn set_edit_mode_reply(mode: EditMode) -> (r: TgResponse)
    ensures
        mode is TimePattern ==> r is EnterNewTimePattern,
        mode is Description ==> r is EnterNewDescription,
{
    match mode {
        EditMode::TimePattern => TgResponse::EnterNewTimePattern,
        EditMode::Description => TgResponse::EnterNewDescription,
    }
}

/// The answer to choosing a timezone, by whether storing it worked.
pub fn set_timezone_reply(tz_name: &str, stored: bool) -> (r: TgResponse)
    ensures
        stored ==> (r matches TgResponse::ChosenTimezone(t) && t@ == tz_name@),
        !stored ==> (r matches TgResponse::FailedSetTimezone(t) && t@ == tz_name@),
{
    if stored {
        TgResponse::ChosenTimezone(String::from_str(tz_name))
    } else {
        TgResponse::FailedSetTimezone(String::from_str(tz_name))
    }
}

/// The answer to choosing a language, by whether storing it worked; a failure names the
/// language chosen (the default one where the code is unknown).
pub fn set_language_reply(lang_code: &str, stored: bool) -> (r: TgResponse)
    ensures
        stored ==> r is ChosenLanguage,
        !stored ==> (r matches TgResponse::FailedSetLanguage(t) && t@ == (match Language::spec_from_code(
            lang_code@,
        ) {
            Some(l) => l,
            None => DEFAULT_LANGUAGE,
        }).spec_name()),
{
    let lang = match Language::from_code(lang_code) {
        Some(l) => l,
        None => DEFAULT_LANGUAGE,
    };
    if stored {
        TgResponse::ChosenLanguage
    } else {
        TgResponse::FailedSetLanguage(String::from_str(lang.name()))
    }
}

/// The lines of a list joined by newlines.
pub open spec fn join_lines(lines: Seq<Seq<char>>) -> Seq<char>
    decreases lines.len(),
{
    if lines.len() == 0 {
        Seq::empty()
    } else if lines.len() == 1 {
        lines[0]
    } else {
        join_lines(lines.drop_last()) + seq!['\n'] + lines.last()
    }
}

/// The list of a chat's reminders: one per line, each with its mentions defused.
pub open spec fn spec_reminders_list(lines: Seq<Seq<char>>) -> Seq<char> {
    join_lines(lines.map_values(|l: Seq<char>| spec_escape_mentions(l)))
}

pub fn reminders_list_text(lines: &Vec<String>) -> (r: String)
    ensures
        r@ == spec_reminders_list(lines@.map_values(|s: String| s@)),
{
    let ghost views = lines@.map_values(|s: String| s@);
    let ghost escaped = views.map_values(|l: Seq<char>| spec_escape_mentions(l));
    let mut out = String::new();
    let mut i: usize = 0;
    while i < lines.len()
        invariant
            i <= lines@.len(),
            views == lines@.map_values(|s: String| s@),
            escaped == views.map_values(|l: Seq<char>| spec_escape_mentions(l)),
            out@ == join_lines(escaped.subrange(0, i as int)),
        decreases lines@.len() - i,
    {
        let line = escape_mentions(lines[i].as_str());
        if i > 0 {
            push_char(&mut out, '\n');
        }
        out.append(line.as_str());
        proof {
            let sub = escaped.subrange(0, i + 1);
            assert(sub.drop_last() =~= escaped.subrange(0, i as int));
            assert(sub.last() == escaped[i as int]);
            if i == 0 {
                assert(sub.len() == 1);
                assert(out@ =~= sub[0]);
            } else {
                assert(out@ =~= join_lines(sub.drop_last()) + seq!['\n'] + sub.last());
            }
        }
        i += 1;
    }
    assert(escaped.subrange(0, lines@.len() as int) =~= escaped);
    out
}

/// A page of a chat's reminders, sorted, as buttons to pick from: each labelled with the
/// reminder as plain text; none past the last page.
pub fn reminders_page_entries(sorted: &Vec<ReminderEntry>, num: usize, now: &DateTime) -> (r:
    Option<Vec<ReminderMarkupEntry>>)
    requires
        forall|i: int| 0 <= i < sorted@.len() ==> (#[trigger] sorted@[i]).id is Some,
    ensures
        match spec_page_bounds(sorted@.len() as int, REMINDERS_PER_PAGE as int, num as int) {
            Some((a, b)) => r matches Some(v) && v@.len() == b - a && forall|k: int|
                0 <= k < v@.len() ==> {
                    let e = #[trigger] v@[k];
                    let rem = sorted@[a + k];
                    &&& e.text@ == spec_to_unescaped_string(rem, *now)
                    &&& e.rem_type@ == "rem"@
                    &&& Some(e.rem_id) == rem.id
                },
            None => r is None,
        },
{
    match page_bounds(sorted.len(), REMINDERS_PER_PAGE, num) {
        Some((a, b)) => {
            let mut v: Vec<ReminderMarkupEntry> = Vec::new();
            let mut i = a;
            while i < b
                invariant
                    a <= i <= b <= sorted@.len(),
                    v@.len() == i - a,
                    forall|i: int| 0 <= i < sorted@.len() ==> (#[trigger] sorted@[i]).id is Some,
                    forall|k: int|
                        0 <= k < v@.len() ==> {
                            let e = #[trigger] v@[k];
                            let rem = sorted@[a + k];
                            &&& e.text@ == spec_to_unescaped_string(rem, *now)
                            &&& e.rem_type@ == "rem"@
                            &&& Some(e.rem_id) == rem.id
                        },
                decreases b - i,
            {
                let rem = &sorted[i];
                let id = match rem.id {
                    Some(id) => id,
                    None => 0,
                };
                v.push(ReminderMarkupEntry { text: to_unescaped_string(rem, now), rem_type: "rem", rem_id: id });
                i += 1;
            }
            Some(v)
        },
        None => None,
    }
}

/// The row of a reminder on a page of a list: its plain text, and the button data that
/// picks it.
pub open spec fn reminder_row(kind: ReminderListKind, rem: ReminderEntry, now: DateTime) -> Seq<
    (Seq<char>, Seq<char>),
> {
    seq![(spec_to_unescaped_string(rem, now), spec_reminder_alter(kind, "rem"@, rem.id.unwrap()))]
}

/// Page `num` of a chat's reminders (sorted) to delete, edit or pause: a row for each of
/// the page's reminders (the `REMINDERS_PER_PAGE` of them from `num` pages in), then a
/// row with an arrow back where `num > 0` and an arrow on where the page holds any; past
/// the last page only the arrow back.
pub open spec fn spec_reminders_page(
    sorted: Seq<ReminderEntry>,
    num: usize,
    kind: ReminderListKind,
    now: DateTime,
) -> Seq<Seq<(Seq<char>, Seq<char>)>> {
    match spec_page_bounds(sorted.len() as int, REMINDERS_PER_PAGE as int, num as int) {
        Some((a, b)) => sorted.subrange(a, b).map_values(
            |rem: ReminderEntry| reminder_row(kind, rem, now),
        ).push(move_row(num, true, |n: usize| spec_reminder_page(kind, n))),
        None => seq![move_row(num, false, |n: usize| spec_reminder_page(kind, n))],
    }
}

/// Page `num` of a chat's reminders, sorted, as the keyboard to pick one from.
pub fn reminders_page(
    sorted: &Vec<ReminderEntry>,
    num: usize,
    kind: ReminderListKind,
    now: &DateTime,
) -> (r: Keyboard)
    requires
        forall|i: int| 0 <= i < sorted@.len() ==> (#[trigger] sorted@[i]).id is Some,
    ensures
        keyboard_view(r) == spec_reminders_page(sorted@, num, kind, *now),
{
    let entries = reminders_page_entries(sorted, num, now);
    let len = sorted.len();
    let ghost bounds = spec_page_bounds(sorted@.len() as int, REMINDERS_PER_PAGE as int, num as int);
    if entries.is_some() {
        assert(bounds is Some);
        assert(num < usize::MAX) by (nonlinear_arith)
            requires
                num * 45 < len,
                len <= usize::MAX,
        ;
    }
    proof {
        match bounds {
            Some((a, b)) => {
                let v = entries.unwrap();
                let want = sorted@.subrange(a, b).map_values(
                    |rem: ReminderEntry| reminder_row(kind, rem, *now),
                );
                let got = entries_view(v).map_values(
                    |e: (Seq<char>, Seq<char>, i64)| seq![(e.0, spec_reminder_alter(kind, e.1, e.2))],
                );
                assert forall|k: int| 0 <= k < want.len() implies got[k] == want[k] by {
                    let e = v@[k];
                    assert(sorted@.subrange(a, b)[k] == sorted@[a + k]);
                    assert(entries_view(v)[k] == (e.text@, e.rem_type@, e.rem_id));
                }
                assert(got =~= want);
            },
            None => {},
        }
    }
    reminders_page_markup(num, kind, entries)
}

} // verus!
