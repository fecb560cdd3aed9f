//! The bot's answers: which message of the translations each one is, with what in it.
use vstd::prelude::*;

use crate::generic_reminder::spec_escape;

verus! {

/// An answer to the user.
#[derive(Debug)]
pub enum TgResponse {
    SuccessInsert(String),
    FailedInsert,
    IncorrectRequest,
    QueryingError,
    RemindersList(String),
    SelectTimezone,
    ChosenTimezone(String),
    FailedSetTimezone(String),
    ChooseDeleteReminder,
    SuccessDelete(String),
    FailedDelete,
    ChooseEditReminder,
    SuccessEdit(String, String),
    FailedEdit,
    EditReminderNotFound,
    CancelEdit,
    ChoosePauseReminder,
    SuccessPause(String),
    SuccessResume(String),
    FailedPause,
    Hello,
    HelloGroup,
    EnterNewTimePattern,
    EnterNewDescription,
    SettingsMenu,
    SelectLanguage,
    ChosenLanguage,
    FailedSetLanguage(String),
    Help,
    DateInPast,
    TimeRangeEndBeforeStart,
    DateRangeEndBeforeStart,
    TimeIntervalTooLargeForRange,
    DateIntervalTooLargeForRange,
    NagIntervalUnsupportedUnit,
    CronExpressionInvalid,
}

impl TgResponse {
    /// The key of the answer's message in the translations: the variant's name.
    pub open spec fn spec_key(&self) -> Seq<char> {
        match *self {
            TgResponse::SuccessInsert(_) => "SuccessInsert"@,
            TgResponse::FailedInsert => "FailedInsert"@,
            TgResponse::IncorrectRequest => "IncorrectRequest"@,
            TgResponse::QueryingError => "QueryingError"@,
            TgResponse::RemindersList(_) => "RemindersList"@,
            TgResponse::SelectTimezone => "SelectTimezone"@,
            TgResponse::ChosenTimezone(_) => "ChosenTimezone"@,
            TgResponse::FailedSetTimezone(_) => "FailedSetTimezone"@,
            TgResponse::ChooseDeleteReminder => "ChooseDeleteReminder"@,
            TgResponse::SuccessDelete(_) => "SuccessDelete"@,
            TgResponse::FailedDelete => "FailedDelete"@,
            TgResponse::ChooseEditReminder => "ChooseEditReminder"@,
            TgResponse::SuccessEdit(_, _) => "SuccessEdit"@,
            TgResponse::FailedEdit => "FailedEdit"@,
            TgResponse::EditReminderNotFound => "EditReminderNotFound"@,
            TgResponse::CancelEdit => "CancelEdit"@,
            TgResponse::ChoosePauseReminder => "ChoosePauseReminder"@,
            TgResponse::SuccessPause(_) => "SuccessPause"@,
            TgResponse::SuccessResume(_) => "SuccessResume"@,
            TgResponse::FailedPause => "FailedPause"@,
            TgResponse::Hello => "Hello"@,
            TgResponse::HelloGroup => "HelloGroup"@,
            TgResponse::EnterNewTimePattern => "EnterNewTimePattern"@,
            TgResponse::EnterNewDescription => "EnterNewDescription"@,
            TgResponse::SettingsMenu => "SettingsMenu"@,
            TgResponse::SelectLanguage => "SelectLanguage"@,
            TgResponse::ChosenLanguage => "ChosenLanguage"@,
            TgResponse::FailedSetLanguage(_) => "FailedSetLanguage"@,
            TgResponse::Help => "Help"@,
            TgResponse::DateInPast => "DateInPast"@,
            TgResponse::TimeRangeEndBeforeStart => "TimeRangeEndBeforeStart"@,
            TgResponse::DateRangeEndBeforeStart => "DateRangeEndBeforeStart"@,
            TgResponse::TimeIntervalTooLargeForRange => "TimeIntervalTooLargeForRange"@,
            TgResponse::DateIntervalTooLargeForRange => "DateIntervalTooLargeForRange"@,
            TgResponse::NagIntervalUnsupportedUnit => "NagIntervalUnsupportedUnit"@,
            TgResponse::CronExpressionInvalid => "CronExpressionInvalid"@,
        }
    }

    /// The values put into the answer's message, by name.
    pub open spec fn spec_args(&self) -> Seq<(Seq<char>, Seq<char>)> {
        match *self {
            TgResponse::SuccessInsert(s) => seq![("reminder"@, s@)],
            TgResponse::RemindersList(s) => seq![("reminders"@, s@)],
            TgResponse::ChosenTimezone(s) => seq![("tz"@, s@)],
            TgResponse::FailedSetTimezone(s) => seq![("tz"@, s@)],
            TgResponse::SuccessDelete(s) => seq![("reminder"@, s@)],
            TgResponse::SuccessEdit(a, b) => seq![("old"@, a@), ("new"@, b@)],
            TgResponse::SuccessPause(s) => seq![("reminder"@, s@)],
            TgResponse::SuccessResume(s) => seq![("reminder"@, s@)],
            TgResponse::FailedSetLanguage(s) => seq![("lang"@, s@)],
            _ => Seq::empty(),
        }
    }

    /// The key of the answer's message in the translations.
    pub fn message_key(&self) -> (r: &'static str)
        ensures
            r@ == self.spec_key(),
    {
        match self {
            TgResponse::SuccessInsert(_) => "SuccessInsert",
            TgResponse::FailedInsert => "FailedInsert",
            TgResponse::IncorrectRequest => "IncorrectRequest",
            TgResponse::QueryingError => "QueryingError",
            TgResponse::RemindersList(_) => "RemindersList",
            TgResponse::SelectTimezone => "SelectTimezone",
            TgResponse::ChosenTimezone(_) => "ChosenTimezone",
            TgResponse::FailedSetTimezone(_) => "FailedSetTimezone",
            TgResponse::ChooseDeleteReminder => "ChooseDeleteReminder",
            TgResponse::SuccessDelete(_) => "SuccessDelete",
            TgResponse::FailedDelete => "FailedDelete",
            TgResponse::ChooseEditReminder => "ChooseEditReminder",
            TgResponse::SuccessEdit(_, _) => "SuccessEdit",
            TgResponse::FailedEdit => "FailedEdit",
            TgResponse::EditReminderNotFound => "EditReminderNotFound",
            TgResponse::CancelEdit => "CancelEdit",
            TgResponse::ChoosePauseReminder => "ChoosePauseReminder",
            TgResponse::SuccessPause(_) => "SuccessPause",
            TgResponse::SuccessResume(_) => "SuccessResume",
            TgResponse::FailedPause => "FailedPause",
            TgResponse::Hello => "Hello",
            TgResponse::HelloGroup => "HelloGroup",
            TgResponse::EnterNewTimePattern => "EnterNewTimePattern",
            TgResponse::EnterNewDescription => "EnterNewDescription",
            TgResponse::SettingsMenu => "SettingsMenu",
            TgResponse::SelectLanguage => "SelectLanguage",
            TgResponse::ChosenLanguage => "ChosenLanguage",
            TgResponse::FailedSetLanguage(_) => "FailedSetLanguage",
            TgResponse::Help => "Help",
            TgResponse::DateInPast => "DateInPast",
            TgResponse::TimeRangeEndBeforeStart => "TimeRangeEndBeforeStart",
            TgResponse::DateRangeEndBeforeStart => "DateRangeEndBeforeStart",
            TgResponse::TimeIntervalTooLargeForRange => "TimeIntervalTooLargeForRange",
            TgResponse::DateIntervalTooLargeForRange => "DateIntervalTooLargeForRange",
            TgResponse::NagIntervalUnsupportedUnit => "NagIntervalUnsupportedUnit",
            TgResponse::CronExpressionInvalid => "CronExpressionInvalid",
        }
    }

    /// The values put into the answer's message, by name.
    pub fn message_args(&self) -> (r: Vec<(&'static str, String)>)
        ensures
            r@.map_values(|a: (&'static str, String)| (a.0@, a.1@)) == self.spec_args(),
    {
        let r: Vec<(&'static str, String)> = match self {
            TgResponse::SuccessInsert(s) => vec![("reminder", s.clone())],
            TgResponse::RemindersList(s) => vec![("reminders", s.clone())],
            TgResponse::ChosenTimezone(s) => vec![("tz", s.clone())],
            TgResponse::FailedSetTimezone(s) => vec![("tz", s.clone())],
            TgResponse::SuccessDelete(s) => vec![("reminder", s.clone())],
            TgResponse::SuccessEdit(a, b) => vec![("old", a.clone()), ("new", b.clone())],
            TgResponse::SuccessPause(s) => vec![("reminder", s.clone())],
            TgResponse::SuccessResume(s) => vec![("reminder", s.clone())],
            TgResponse::FailedSetLanguage(s) => vec![("lang", s.clone())],
            _ => Vec::new(),
        };
        assert(r@.map_values(|a: (&'static str, String)| (a.0@, a.1@)) =~= self.spec_args());
        r
    }
}

/// A translated answer made ready for MarkdownV2: its reserved characters escaped.
pub fn to_string_lang(unescaped: &str) -> (r: String)
    ensures
        r@ == spec_escape(unescaped@),
{
    crate::generic_reminder::markdown_escape(unescaped)
}

} // verus!
