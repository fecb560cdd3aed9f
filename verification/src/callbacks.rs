//! The data carried by the bot's inline-keyboard buttons: how it is built and read back.
use vstd::prelude::*;

use crate::text::{
    int_to_decimal, lemma_parse_i64_of_decimal, lemma_parse_usize_of_decimal,
    lemma_strip_prefix_concat, nat_to_decimal, parse_i64, parse_usize, prefixed_i64,
    prefixed_u64, spec_parse_i64, spec_parse_usize, spec_starts_with, spec_strip_prefix,
    starts_with, str_eq, strip_prefix,
};

verus! {

pub const SELECT_TIMEZONE_PREFIX: &'static str = "seltz::";

pub const SELECT_TIMEZONE_PAGE_PREFIX: &'static str = "seltz::page::";

pub const SELECT_TIMEZONE_TZ_PREFIX: &'static str = "seltz::tz::";

pub const SET_LANGUAGE_PREFIX: &'static str = "setlang::";

pub const SET_LANGUAGE_CODE_PREFIX: &'static str = "setlang::lang::";

pub const SETTINGS_PREFIX: &'static str = "settings::";

pub const SETTINGS_CHANGE_LANGUAGE: &'static str = "settings::change_lang";

pub const DONE_OCCURRENCE_PREFIX: &'static str = "donerem::occ::";

pub const EDIT_MODE_TIME_PATTERN_PREFIX: &'static str = "edit_rem_mode::rem_time_pattern::";

pub const EDIT_MODE_DESCRIPTION_PREFIX: &'static str = "edit_rem_mode::rem_description::";

pub const PAGE_INFIX: &'static str = "::page::";

pub const ALTER_SEPARATOR: &'static str = "::";

pub const ALTER_INFIX: &'static str = "_alt::";

/// The list of reminders that a keyboard lets the user pick from.
#[derive(Clone, Copy, PartialEq, Eq, Structural, Debug)]
pub enum ReminderListKind {
    Delete,
    Edit,
    Pause,
}

impl ReminderListKind {
    pub open spec fn spec_prefix(self) -> Seq<char> {
        match self {
            ReminderListKind::Delete => "delrem"@,
            ReminderListKind::Edit => "editrem"@,
            ReminderListKind::Pause => "pauserem"@,
        }
    }

    /// The word that starts the data of this list's buttons.
    pub fn prefix(self) -> (r: &'static str)
        ensures
            r@ == self.spec_prefix(),
    {
        match self {
            ReminderListKind::Delete => "delrem",
            ReminderListKind::Edit => "editrem",
            ReminderListKind::Pause => "pauserem",
        }
    }
}

// ---------------------------------------------------------------------------
// the data, as sequences of characters

pub open spec fn spec_select_timezone_page(page_num: usize) -> Seq<char> {
    SELECT_TIMEZONE_PAGE_PREFIX@ + nat_to_decimal(page_num as nat)
}

pub open spec fn spec_select_timezone_tz(tz_name: Seq<char>) -> Seq<char> {
    SELECT_TIMEZONE_TZ_PREFIX@ + tz_name
}

pub open spec fn spec_set_language(lang_code: Seq<char>) -> Seq<char> {
    SET_LANGUAGE_CODE_PREFIX@ + lang_code
}

pub open spec fn spec_done_occurrence(occ_id: i64) -> Seq<char> {
    DONE_OCCURRENCE_PREFIX@ + int_to_decimal(occ_id as int)
}

pub open spec fn spec_page_prefix(kind: ReminderListKind) -> Seq<char> {
    kind.spec_prefix() + PAGE_INFIX@
}

pub open spec fn spec_reminder_page(kind: ReminderListKind, page_num: usize) -> Seq<char> {
    spec_page_prefix(kind) + nat_to_decimal(page_num as nat)
}

pub open spec fn spec_alter_prefix(kind: ReminderListKind, rem_type: Seq<char>) -> Seq<char> {
    kind.spec_prefix() + ALTER_SEPARATOR@ + rem_type + ALTER_INFIX@
}

pub open spec fn spec_reminder_alter(kind: ReminderListKind, rem_type: Seq<char>, rem_id: i64) -> Seq<
    char,
> {
    spec_alter_prefix(kind, rem_type) + int_to_decimal(rem_id as int)
}

pub open spec fn spec_edit_mode_time_pattern(rem_id: i64) -> Seq<char> {
    EDIT_MODE_TIME_PATTERN_PREFIX@ + int_to_decimal(rem_id as int)
}

pub open spec fn spec_edit_mode_description(rem_id: i64) -> Seq<char> {
    EDIT_MODE_DESCRIPTION_PREFIX@ + int_to_decimal(rem_id as int)
}

/// The number after `prefix` in `data`, read as `str::parse::<i64>` reads it.
pub open spec fn spec_parse_i64_with_prefix(prefix: Seq<char>, data: Seq<char>) -> Option<i64> {
    match spec_strip_prefix(prefix, data) {
        Some(rest) => spec_parse_i64(rest),
        None => None,
    }
}

/// The number after `prefix` in `data`, read as `str::parse::<usize>` reads it.
pub open spec fn spec_parse_usize_with_prefix(prefix: Seq<char>, data: Seq<char>) -> Option<
    usize,
> {
    match spec_strip_prefix(prefix, data) {
        Some(rest) => spec_parse_usize(rest),
        None => None,
    }
}

// ---------------------------------------------------------------------------
// executable functions

pub fn parse_i64_with_prefix(prefix: &str, data: &str) -> (r: Option<i64>)
    ensures
        r == spec_parse_i64_with_prefix(prefix@, data@),
{
    match strip_prefix(data, prefix) {
        Some(rest) => parse_i64(rest),
        None => None,
    }
}

pub fn parse_usize_with_prefix(prefix: &str, data: &str) -> (r: Option<usize>)
    ensures
        r == spec_parse_usize_with_prefix(prefix@, data@),
{
    match strip_prefix(data, prefix) {
        Some(rest) => parse_usize(rest),
        None => None,
    }
}

pub fn is_select_timezone(data: &str) -> (r: bool)
    ensures
        r == spec_starts_with(data@, SELECT_TIMEZONE_PREFIX@),
{
    starts_with(data, SELECT_TIMEZONE_PREFIX)
}

pub fn select_timezone_page(page_num: usize) -> (r: String)
    ensures
        r@ == spec_select_timezone_page(page_num),
{
    prefixed_u64(SELECT_TIMEZONE_PAGE_PREFIX, page_num as u64)
}

pub fn parse_select_timezone_page(data: &str) -> (r: Option<usize>)
    ensures
        r == spec_parse_usize_with_prefix(SELECT_TIMEZONE_PAGE_PREFIX@, data@),
{
    parse_usize_with_prefix(SELECT_TIMEZONE_PAGE_PREFIX, data)
}

pub fn select_timezone_tz(tz_name: &str) -> (r: String)
    ensures
        r@ == spec_select_timezone_tz(tz_name@),
{
    let mut s = String::from_str(SELECT_TIMEZONE_TZ_PREFIX);
    s.append(tz_name);
    s
}

pub fn parse_select_timezone_tz(data: &str) -> (r: Option<&str>)
    ensures
        r matches Some(t) ==> spec_strip_prefix(SELECT_TIMEZONE_TZ_PREFIX@, data@) == Some(t@),
        r is None ==> spec_strip_prefix(SELECT_TIMEZONE_TZ_PREFIX@, data@) is None,
{
    strip_prefix(data, SELECT_TIMEZONE_TZ_PREFIX)
}

pub fn is_set_language(data: &str) -> (r: bool)
    ensures
        r == spec_starts_with(data@, SET_LANGUAGE_PREFIX@),
{
    starts_with(data, SET_LANGUAGE_PREFIX)
}

pub fn set_language(lang_code: &str) -> (r: String)
    ensures
        r@ == spec_set_language(lang_code@),
{
    let mut s = String::from_str(SET_LANGUAGE_CODE_PREFIX);
    s.append(lang_code);
    s
}

pub fn parse_set_language(data: &str) -> (r: Option<&str>)
    ensures
        r matches Some(t) ==> spec_strip_prefix(SET_LANGUAGE_CODE_PREFIX@, data@) == Some(t@),
        r is None ==> spec_strip_prefix(SET_LANGUAGE_CODE_PREFIX@, data@) is None,
{
    strip_prefix(data, SET_LANGUAGE_CODE_PREFIX)
}

pub fn is_settings(data: &str) -> (r: bool)
    ensures
        r == spec_starts_with(data@, SETTINGS_PREFIX@),
{
    starts_with(data, SETTINGS_PREFIX)
}

pub fn settings_change_language() -> (r: String)
    ensures
        r@ == SETTINGS_CHANGE_LANGUAGE@,
{
    String::from_str(SETTINGS_CHANGE_LANGUAGE)
}

pub fn is_settings_change_language(data: &str) -> (r: bool)
    ensures
        r == (data@ == SETTINGS_CHANGE_LANGUAGE@),
{
    str_eq(data, SETTINGS_CHANGE_LANGUAGE)
}

pub fn done_occurrence(occ_id: i64) -> (r: String)
    ensures
        r@ == spec_done_occurrence(occ_id),
{
    prefixed_i64(DONE_OCCURRENCE_PREFIX, occ_id)
}

pub fn is_done_occurrence(data: &str) -> (r: bool)
    ensures
        r == spec_starts_with(data@, DONE_OCCURRENCE_PREFIX@),
{
    starts_with(data, DONE_OCCURRENCE_PREFIX)
}

pub fn parse_done_occurrence(data: &str) -> (r: Option<i64>)
    ensures
        r == spec_parse_i64_with_prefix(DONE_OCCURRENCE_PREFIX@, data@),
{
    parse_i64_with_prefix(DONE_OCCURRENCE_PREFIX, data)
}

fn page_prefix(kind: ReminderListKind) -> (r: String)
    ensures
        r@ == spec_page_prefix(kind),
{
    let mut s = String::from_str(kind.prefix());
    s.append(PAGE_INFIX);
    s
}

fn alter_prefix(kind: ReminderListKind, rem_type: &str) -> (r: String)
    ensures
        r@ == spec_alter_prefix(kind, rem_type@),
{
    let mut s = String::from_str(kind.prefix());
    s.append(ALTER_SEPARATOR);
    s.append(rem_type);
    s.append(ALTER_INFIX);
    s
}

pub fn reminder_page(kind: ReminderListKind, page_num: usize) -> (r: String)
    ensures
        r@ == spec_reminder_page(kind, page_num),
{
    let prefix = page_prefix(kind);
    prefixed_u64(prefix.as_str(), page_num as u64)
}

pub fn parse_reminder_page(kind: ReminderListKind, data: &str) -> (r: Option<usize>)
    ensures
        r == spec_parse_usize_with_prefix(spec_page_prefix(kind), data@),
{
    let prefix = page_prefix(kind);
    parse_usize_with_prefix(prefix.as_str(), data)
}

pub fn reminder_alter(kind: ReminderListKind, rem_type: &str, rem_id: i64) -> (r: String)
    ensures
        r@ == spec_reminder_alter(kind, rem_type@, rem_id),
{
    let prefix = alter_prefix(kind, rem_type);
    prefixed_i64(prefix.as_str(), rem_id)
}

pub fn parse_reminder_alter(kind: ReminderListKind, rem_type: &str, data: &str) -> (r: Option<
    i64,
>)
    ensures
        r == spec_parse_i64_with_prefix(spec_alter_prefix(kind, rem_type@), data@),
{
    let prefix = alter_prefix(kind, rem_type);
    parse_i64_with_prefix(prefix.as_str(), data)
}

pub fn edit_mode_time_pattern(rem_id: i64) -> (r: String)
    ensures
        r@ == spec_edit_mode_time_pattern(rem_id),
{
    prefixed_i64(EDIT_MODE_TIME_PATTERN_PREFIX, rem_id)
}

pub fn parse_edit_mode_time_pattern(data: &str) -> (r: Option<i64>)
    ensures
        r == spec_parse_i64_with_prefix(EDIT_MODE_TIME_PATTERN_PREFIX@, data@),
{
    parse_i64_with_prefix(EDIT_MODE_TIME_PATTERN_PREFIX, data)
}

pub fn edit_mode_description(rem_id: i64) -> (r: String)
    ensures
        r@ == spec_edit_mode_description(rem_id),
{
    prefixed_i64(EDIT_MODE_DESCRIPTION_PREFIX, rem_id)
}

pub fn parse_edit_mode_description(data: &str) -> (r: Option<i64>)
    ensures
        r == spec_parse_i64_with_prefix(EDIT_MODE_DESCRIPTION_PREFIX@, data@),
{
    parse_i64_with_prefix(EDIT_MODE_DESCRIPTION_PREFIX, data)
}

// ---------------------------------------------------------------------------
// laws

/// Reading back the data of a "done" button gives the occurrence it was made for,
/// and the data is recognised as such.
pub proof fn law_done_occurrence_roundtrip(occ_id: i64)
    ensures
        spec_parse_i64_with_prefix(DONE_OCCURRENCE_PREFIX@, spec_done_occurrence(occ_id)) == Some(
            occ_id,
        ),
        spec_starts_with(spec_done_occurrence(occ_id), DONE_OCCURRENCE_PREFIX@),
{
    lemma_strip_prefix_concat(DONE_OCCURRENCE_PREFIX@, int_to_decimal(occ_id as int));
    lemma_parse_i64_of_decimal(occ_id);
}

/// Reading back a timezone page button gives its page; the data belongs to the timezone menu.
pub proof fn law_select_timezone_page_roundtrip(page_num: usize)
    ensures
        spec_parse_usize_with_prefix(
            SELECT_TIMEZONE_PAGE_PREFIX@,
            spec_select_timezone_page(page_num),
        ) == Some(page_num),
        spec_starts_with(spec_select_timezone_page(page_num), SELECT_TIMEZONE_PREFIX@),
{
    lemma_strip_prefix_concat(SELECT_TIMEZONE_PAGE_PREFIX@, nat_to_decimal(page_num as nat));
    lemma_parse_usize_of_decimal(page_num);
    reveal_strlit("seltz::page::");
    reveal_strlit("seltz::");
    let s = spec_select_timezone_page(page_num);
    assert(s.subrange(0, 7) =~= SELECT_TIMEZONE_PREFIX@);
}

/// Reading back a timezone button gives the timezone's name; the data belongs to the timezone menu.
pub proof fn law_select_timezone_tz_roundtrip(tz_name: Seq<char>)
    ensures
        spec_strip_prefix(SELECT_TIMEZONE_TZ_PREFIX@, spec_select_timezone_tz(tz_name)) == Some(
            tz_name,
        ),
        spec_starts_with(spec_select_timezone_tz(tz_name), SELECT_TIMEZONE_PREFIX@),
{
    lemma_strip_prefix_concat(SELECT_TIMEZONE_TZ_PREFIX@, tz_name);
    reveal_strlit("seltz::tz::");
    reveal_strlit("seltz::");
    let s = spec_select_timezone_tz(tz_name);
    assert(s.subrange(0, 7) =~= SELECT_TIMEZONE_PREFIX@);
}

/// Reading back a language button gives the language code; the data belongs to the language menu.
pub proof fn law_set_language_roundtrip(lang_code: Seq<char>)
    ensures
        spec_strip_prefix(SET_LANGUAGE_CODE_PREFIX@, spec_set_language(lang_code)) == Some(
            lang_code,
        ),
        spec_starts_with(spec_set_language(lang_code), SET_LANGUAGE_PREFIX@),
{
    lemma_strip_prefix_concat(SET_LANGUAGE_CODE_PREFIX@, lang_code);
    reveal_strlit("setlang::lang::");
    reveal_strlit("setlang::");
    let s = spec_set_language(lang_code);
    assert(s.subrange(0, 9) =~= SET_LANGUAGE_PREFIX@);
}

/// The "change language" button belongs to the settings menu.
pub proof fn law_settings_change_language_is_settings()
    ensures
        spec_starts_with(SETTINGS_CHANGE_LANGUAGE@, SETTINGS_PREFIX@),
{
    reveal_strlit("settings::change_lang");
    reveal_strlit("settings::");
    assert(SETTINGS_CHANGE_LANGUAGE@.subrange(0, 10) =~= SETTINGS_PREFIX@);
}

/// Reading back a page button of a reminder list gives its page.
pub proof fn law_reminder_page_roundtrip(kind: ReminderListKind, page_num: usize)
    ensures
        spec_parse_usize_with_prefix(spec_page_prefix(kind), spec_reminder_page(kind, page_num))
            == Some(page_num),
{
    lemma_strip_prefix_concat(spec_page_prefix(kind), nat_to_decimal(page_num as nat));
    lemma_parse_usize_of_decimal(page_num);
}

/// Reading back a reminder button of a list gives the reminder it was made for.
pub proof fn law_reminder_alter_roundtrip(kind: ReminderListKind, rem_type: Seq<char>, rem_id: i64)
    ensures
        spec_parse_i64_with_prefix(
            spec_alter_prefix(kind, rem_type),
            spec_reminder_alter(kind, rem_type, rem_id),
        ) == Some(rem_id),
{
    lemma_strip_prefix_concat(spec_alter_prefix(kind, rem_type), int_to_decimal(rem_id as int));
    lemma_parse_i64_of_decimal(rem_id);
}

/// Reading back the edit-mode buttons gives the reminder they were made for.
pub proof fn law_edit_mode_roundtrip(rem_id: i64)
    ensures
        spec_parse_i64_with_prefix(
            EDIT_MODE_TIME_PATTERN_PREFIX@,
            spec_edit_mode_time_pattern(rem_id),
        ) == Some(rem_id),
        spec_parse_i64_with_prefix(
            EDIT_MODE_DESCRIPTION_PREFIX@,
            spec_edit_mode_description(rem_id),
        ) == Some(rem_id),
{
    lemma_strip_prefix_concat(EDIT_MODE_TIME_PATTERN_PREFIX@, int_to_decimal(rem_id as int));
    lemma_strip_prefix_concat(EDIT_MODE_DESCRIPTION_PREFIX@, int_to_decimal(rem_id as int));
    lemma_parse_i64_of_decimal(rem_id);
}

} // verus!
