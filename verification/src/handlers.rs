//! Which handler an update from Telegram goes to: commands, plain and edited messages,
//! and the data of pressed buttons.
use vstd::prelude::*;

use crate::callbacks::{
    is_done_occurrence, is_select_timezone, is_set_language, is_settings,
    is_settings_change_language, parse_done_occurrence, parse_edit_mode_description,
    parse_edit_mode_time_pattern, parse_reminder_alter, parse_reminder_page,
    parse_select_timezone_page, parse_select_timezone_tz, parse_set_language,
    spec_alter_prefix, spec_page_prefix, spec_parse_i64_with_prefix, spec_parse_usize_with_prefix,
    ReminderListKind, DONE_OCCURRENCE_PREFIX, EDIT_MODE_DESCRIPTION_PREFIX,
    EDIT_MODE_TIME_PATTERN_PREFIX, SELECT_TIMEZONE_PAGE_PREFIX, SELECT_TIMEZONE_PREFIX,
    SELECT_TIMEZONE_TZ_PREFIX, SETTINGS_CHANGE_LANGUAGE, SETTINGS_PREFIX, SET_LANGUAGE_CODE_PREFIX,
    SET_LANGUAGE_PREFIX,
};
use crate::callbacks::{
    law_done_occurrence_roundtrip, law_edit_mode_roundtrip, law_reminder_alter_roundtrip,
    law_reminder_page_roundtrip, law_select_timezone_page_roundtrip,
    law_select_timezone_tz_roundtrip, law_set_language_roundtrip,
    law_settings_change_language_is_settings, spec_done_occurrence, spec_edit_mode_description,
    spec_edit_mode_time_pattern, spec_reminder_alter, spec_reminder_page,
    spec_select_timezone_page, spec_select_timezone_tz, spec_set_language, ALTER_INFIX,
    ALTER_SEPARATOR, PAGE_INFIX,
};
use crate::controller::EditMode;
use crate::text::{spec_parse_i64, spec_parse_usize, spec_starts_with, spec_strip_prefix};

verus! {

/// The bot's commands.
#[derive(Debug)]
pub enum Command {
    List,
    Delete,
    Edit,
    Cancel,
    Pause,
    /// `/set`: a new reminder (the command is named `set`).
    SetReminder(String),
    SetTimezone,
    Timezone,
    Settings,
    Help,
    Start,
}

/// Where a user's conversation with the bot stands: nothing under way, or a reminder
/// being edited.
#[derive(Debug, Clone, Copy, PartialEq, Eq, Structural)]
pub enum State {
    Default,
    Edit { id: i64, mode: EditMode },
}

impl Default for State {
    fn default() -> (r: State)
        ensures
            r == State::Default,
    {
        State::Default
    }
}

/// What a pressed button asks for.
#[derive(Debug)]
pub enum CallbackAction {
    SelectTimezonePage(usize),
    SetTimezone(String),
    ChooseLanguage,
    SetLanguage(String),
    DoneOccurrence(i64),
    DeletePage(usize),
    DeleteReminder(i64),
    EditPage(usize),
    ChooseEditMode(i64),
    PausePage(usize),
    PauseReminder(i64),
    EditTimePattern(i64),
    EditDescription(i64),
    /// The data is not understood: the user is told so and the button press is answered.
    Incorrect,
}

/// What an update from Telegram carries, as far as the choice of handler goes.
#[derive(Debug)]
pub enum Incoming {
    /// A new message: the command it holds, if it is one, whether it was sent in a
    /// private chat, whether it shares a location, and its text.
    Message { command: Option<Command>, private_chat: bool, has_location: bool, text: Option<String> },
    /// An edited message.
    EditedMessage { command: Option<Command>, private_chat: bool, text: Option<String> },
    /// A pressed button and its data.
    CallbackQuery { data: Option<String> },
}

/// The handler an update goes to.
#[derive(Debug)]
pub enum Route {
    Help,
    Start,
    StartGroup,
    ChooseTimezone,
    ChooseSettings,
    List,
    ShowTimezone,
    StartDelete,
    StartEdit,
    CancelEdit,
    StartPause,
    SetReminder(String),
    SetLocation,
    EditReminder(i64, EditMode, String),
    EditFromEditedMessage(String),
    Incorrect,
    Callback(CallbackAction),
    /// No handler takes the update.
    Ignore,
}

// ---------------------------------------------------------------------------
// the choice, stated


/// The timezone menu: a page to show, or a timezone to set.
pub open spec fn timezone_action_is(data: Seq<char>, a: CallbackAction) -> bool {
    match spec_parse_usize_with_prefix(SELECT_TIMEZONE_PAGE_PREFIX@, data) {
        Some(n) => a == CallbackAction::SelectTimezonePage(n),
        None => match spec_strip_prefix(SELECT_TIMEZONE_TZ_PREFIX@, data) {
            Some(name) => a matches CallbackAction::SetTimezone(t) && t@ == name,
            None => a is Incorrect,
        },
    }
}

/// The language menu: a language to set.
pub open spec fn language_action_is(data: Seq<char>, a: CallbackAction) -> bool {
    match spec_strip_prefix(SET_LANGUAGE_CODE_PREFIX@, data) {
        Some(code) => a matches CallbackAction::SetLanguage(c) && c@ == code,
        None => a is Incorrect,
    }
}

/// The settings menu: changing the language.
pub open spec fn settings_action_is(data: Seq<char>, a: CallbackAction) -> bool {
    if data == SETTINGS_CHANGE_LANGUAGE@ {
        a is ChooseLanguage
    } else {
        a is Incorrect
    }
}

/// The button under a nagging reminder: the occurrence that is done.
pub open spec fn done_action_is(data: Seq<char>, a: CallbackAction) -> bool {
    match spec_parse_i64_with_prefix(DONE_OCCURRENCE_PREFIX@, data) {
        Some(id) => a == CallbackAction::DoneOccurrence(id),
        None => a is Incorrect,
    }
}

/// Any other button, for a user whose timezone is known: tried in this order.
pub open spec fn general_action_is(data: Seq<char>, a: CallbackAction) -> bool {
    let page = |k: ReminderListKind| spec_parse_usize_with_prefix(spec_page_prefix(k), data);
    let alter = |k: ReminderListKind| spec_parse_i64_with_prefix(spec_alter_prefix(k, "rem"@), data);
    if spec_parse_usize_with_prefix(SELECT_TIMEZONE_PAGE_PREFIX@, data) is Some
        || spec_strip_prefix(SELECT_TIMEZONE_TZ_PREFIX@, data) is Some {
        timezone_action_is(data, a)
    } else if data == SETTINGS_CHANGE_LANGUAGE@ {
        a is ChooseLanguage
    } else if spec_strip_prefix(SET_LANGUAGE_CODE_PREFIX@, data) is Some {
        language_action_is(data, a)
    } else if page(ReminderListKind::Delete) is Some {
        a == CallbackAction::DeletePage(page(ReminderListKind::Delete).unwrap())
    } else if alter(ReminderListKind::Delete) is Some {
        a == CallbackAction::DeleteReminder(alter(ReminderListKind::Delete).unwrap())
    } else if page(ReminderListKind::Edit) is Some {
        a == CallbackAction::EditPage(page(ReminderListKind::Edit).unwrap())
    } else if alter(ReminderListKind::Edit) is Some {
        a == CallbackAction::ChooseEditMode(alter(ReminderListKind::Edit).unwrap())
    } else if page(ReminderListKind::Pause) is Some {
        a == CallbackAction::PausePage(page(ReminderListKind::Pause).unwrap())
    } else if alter(ReminderListKind::Pause) is Some {
        a == CallbackAction::PauseReminder(alter(ReminderListKind::Pause).unwrap())
    } else if spec_parse_i64_with_prefix(EDIT_MODE_TIME_PATTERN_PREFIX@, data) is Some {
        a == CallbackAction::EditTimePattern(
            spec_parse_i64_with_prefix(EDIT_MODE_TIME_PATTERN_PREFIX@, data).unwrap(),
        )
    } else if spec_parse_i64_with_prefix(EDIT_MODE_DESCRIPTION_PREFIX@, data) is Some {
        a == CallbackAction::EditDescription(
            spec_parse_i64_with_prefix(EDIT_MODE_DESCRIPTION_PREFIX@, data).unwrap(),
        )
    } else {
        a is Incorrect
    }
}

/// The handler for a button's data: the menus that need no timezone first, then, for a
/// user whose timezone is known, the others; nothing otherwise.
pub open spec fn callback_route_is(data: Seq<char>, has_timezone: bool, r: Route) -> bool {
    if spec_starts_with(data, SELECT_TIMEZONE_PREFIX@) {
        r matches Route::Callback(a) && timezone_action_is(data, a)
    } else if spec_starts_with(data, SET_LANGUAGE_PREFIX@) {
        r matches Route::Callback(a) && language_action_is(data, a)
    } else if spec_starts_with(data, SETTINGS_PREFIX@) {
        r matches Route::Callback(a) && settings_action_is(data, a)
    } else if spec_starts_with(data, DONE_OCCURRENCE_PREFIX@) {
        r matches Route::Callback(a) && done_action_is(data, a)
    } else if has_timezone {
        r matches Route::Callback(a) && general_action_is(data, a)
    } else {
        r is Ignore
    }
}

/// The handler for a command in a new message.
pub open spec fn command_route_is(c: Command, private_chat: bool, has_timezone: bool, r: Route) -> bool {
    match c {
        Command::Help => r is Help,
        Command::Start => if private_chat {
            r is Start
        } else {
            r is StartGroup
        },
        Command::SetTimezone => r is ChooseTimezone,
        Command::Settings => r is ChooseSettings,
        _ => if !has_timezone {
            r is ChooseTimezone
        } else {
            match c {
                Command::List => r is List,
                Command::Timezone => r is ShowTimezone,
                Command::Delete => r is StartDelete,
                Command::Edit => r is StartEdit,
                Command::Cancel => r is CancelEdit,
                Command::Pause => r is StartPause,
                Command::SetReminder(t) => r matches Route::SetReminder(u) && u@ == t@,
                _ => false,
            }
        },
    }
}

/// The handler for an update: `sender_known` tells whether the update names the chat and
/// the user it comes from, `has_timezone` whether that user has chosen a timezone, and
/// `state` where the conversation stands.
pub open spec fn route_is(incoming: Incoming, sender_known: bool, has_timezone: bool, state: State, r: Route) -> bool {
    if !sender_known {
        r is Ignore
    } else {
        match incoming {
            Incoming::Message { command, private_chat, has_location, text } => match command {
                Some(c) => command_route_is(c, private_chat, has_timezone, r),
                None => if !private_chat {
                    r is Ignore
                } else if has_location {
                    r is SetLocation
                } else if !has_timezone {
                    r is ChooseTimezone
                } else {
                    match text {
                        Some(t) => match state {
                            State::Edit { id, mode } => r matches Route::EditReminder(i, m, u) && i == id && m
                                == mode && u@ == t@,
                            State::Default => r matches Route::SetReminder(u) && u@ == t@,
                        },
                        None => r is Incorrect,
                    }
                },
            },
            Incoming::EditedMessage { command, private_chat, text } => match command {
                Some(c) => if !has_timezone {
                    r is ChooseTimezone
                } else {
                    match c {
                        Command::SetReminder(t) => r matches Route::EditFromEditedMessage(u) && u@ == t@,
                        _ => r is Incorrect,
                    }
                },
                None => if !private_chat {
                    r is Ignore
                } else if !has_timezone {
                    r is ChooseTimezone
                } else {
                    match text {
                        Some(t) => r matches Route::EditFromEditedMessage(u) && u@ == t@,
                        None => r is Incorrect,
                    }
                },
            },
            Incoming::CallbackQuery { data } => match data {
                Some(d) => callback_route_is(d@, has_timezone, r),
                None => r is Ignore,
            },
        }
    }
}

// ---------------------------------------------------------------------------
// the choice, made

fn owned(s: &str) -> (r: String)
    ensures
        r@ == s@,
{
    String::from_str(s)
}

/// The timezone menu's handler.
pub fn select_timezone_action(data: &str) -> (r: CallbackAction)
    ensures
        timezone_action_is(data@, r),
{
    if let Some(page_num) = parse_select_timezone_page(data) {
        CallbackAction::SelectTimezonePage(page_num)
    } else if let Some(tz_name) = parse_select_timezone_tz(data) {
        CallbackAction::SetTimezone(owned(tz_name))
    } else {
        CallbackAction::Incorrect
    }
}

/// The language menu's handler.
pub fn select_language_action(data: &str) -> (r: CallbackAction)
    ensures
        language_action_is(data@, r),
{
    if let Some(lang_code) = parse_set_language(data) {
        CallbackAction::SetLanguage(owned(lang_code))
    } else {
        CallbackAction::Incorrect
    }
}

/// The settings menu's handler.
pub fn settings_menu_action(data: &str) -> (r: CallbackAction)
    ensures
        settings_action_is(data@, r),
{
    if is_settings_change_language(data) {
        CallbackAction::ChooseLanguage
    } else {
        CallbackAction::Incorrect
    }
}

/// The handler of the button under a nagging reminder.
pub fn done_occurrence_action(data: &str) -> (r: CallbackAction)
    ensures
        done_action_is(data@, r),
{
    if let Some(occ_id) = parse_done_occurrence(data) {
        CallbackAction::DoneOccurrence(occ_id)
    } else {
        CallbackAction::Incorrect
    }
}

/// The handler of the other buttons, for a user whose timezone is known.
pub fn callback_handler(data: &str) -> (r: CallbackAction)
    ensures
        general_action_is(data@, r),
{
    if let Some(page_num) = parse_select_timezone_page(data) {
        CallbackAction::SelectTimezonePage(page_num)
    } else if let Some(tz_name) = parse_select_timezone_tz(data) {
        CallbackAction::SetTimezone(owned(tz_name))
    } else if is_settings_change_language(data) {
        CallbackAction::ChooseLanguage
    } else if let Some(lang_code) = parse_set_language(data) {
        CallbackAction::SetLanguage(owned(lang_code))
    } else if let Some(page_num) = parse_reminder_page(ReminderListKind::Delete, data) {
        CallbackAction::DeletePage(page_num)
    } else if let Some(rem_id) = parse_reminder_alter(ReminderListKind::Delete, "rem", data) {
        CallbackAction::DeleteReminder(rem_id)
    } else if let Some(page_num) = parse_reminder_page(ReminderListKind::Edit, data) {
        CallbackAction::EditPage(page_num)
    } else if let Some(rem_id) = parse_reminder_alter(ReminderListKind::Edit, "rem", data) {
        CallbackAction::ChooseEditMode(rem_id)
    } else if let Some(page_num) = parse_reminder_page(ReminderListKind::Pause, data) {
        CallbackAction::PausePage(page_num)
    } else if let Some(rem_id) = parse_reminder_alter(ReminderListKind::Pause, "rem", data) {
        CallbackAction::PauseReminder(rem_id)
    } else if let Some(rem_id) = parse_edit_mode_time_pattern(data) {
        CallbackAction::EditTimePattern(rem_id)
    } else if let Some(rem_id) = parse_edit_mode_description(data) {
        CallbackAction::EditDescription(rem_id)
    } else {
        CallbackAction::Incorrect
    }
}

/// The handler for a button's data.
pub fn route_callback(data: &str, has_timezone: bool) -> (r: Route)
    ensures
        callback_route_is(data@, has_timezone, r),
{
    if is_select_timezone(data) {
        Route::Callback(select_timezone_action(data))
    } else if is_set_language(data) {
        Route::Callback(select_language_action(data))
    } else if is_settings(data) {
        Route::Callback(settings_menu_action(data))
    } else if is_done_occurrence(data) {
        Route::Callback(done_occurrence_action(data))
    } else if has_timezone {
        Route::Callback(callback_handler(data))
    } else {
        Route::Ignore
    }
}

fn command_route(c: Command, private_chat: bool, has_timezone: bool) -> (r: Route)
    ensures
        command_route_is(c, private_chat, has_timezone, r),
{
    match c {
        Command::Help => Route::Help,
        Command::Start => if private_chat {
            Route::Start
        } else {
            Route::StartGroup
        },
        Command::SetTimezone => Route::ChooseTimezone,
        Command::Settings => Route::ChooseSettings,
        c => if !has_timezone {
            Route::ChooseTimezone
        } else {
            match c {
                Command::List => Route::List,
                Command::Timezone => Route::ShowTimezone,
                Command::Delete => Route::StartDelete,
                Command::Edit => Route::StartEdit,
                Command::Cancel => Route::CancelEdit,
                Command::Pause => Route::StartPause,
                Command::SetReminder(t) => Route::SetReminder(t),
                _ => Route::Incorrect,
            }
        },
    }
}

/// Chooses the handler of an update, as the bot's dispatch tree does.
pub fn get_handler(incoming: Incoming, sender_known: bool, has_timezone: bool, state: State) -> (r: Route)
    ensures
        route_is(incoming, sender_known, has_timezone, state, r),
{
    if !sender_known {
        return Route::Ignore;
    }
    match incoming {
        Incoming::Message { command, private_chat, has_location, text } => match command {
            Some(c) => command_route(c, private_chat, has_timezone),
            None => if !private_chat {
                Route::Ignore
            } else if has_location {
                Route::SetLocation
            } else if !has_timezone {
                Route::ChooseTimezone
            } else {
                match text {
                    Some(t) => match state {
                        State::Edit { id, mode } => Route::EditReminder(id, mode, t),
                        State::Default => Route::SetReminder(t),
                    },
                    None => Route::Incorrect,
                }
            },
        },
        Incoming::EditedMessage { command, private_chat, text } => match command {
            Some(c) => if !has_timezone {
                Route::ChooseTimezone
            } else {
                match c {
                    Command::SetReminder(t) => Route::EditFromEditedMessage(t),
                    _ => Route::Incorrect,
                }
            },
            None => if !private_chat {
                Route::Ignore
            } else if !has_timezone {
                Route::ChooseTimezone
            } else {
                match text {
                    Some(t) => Route::EditFromEditedMessage(t),
                    None => Route::Incorrect,
                }
            },
        },
        Incoming::CallbackQuery { data } => match data {
            Some(d) => route_callback(d.as_str(), has_timezone),
            None => Route::Ignore,
        },
    }
}

// ---------------------------------------------------------------------------
// laws: every button the bot makes is routed back to what it stands for

/// Data that differs from `prefix` within the prefix's length does not start with it.
pub proof fn lemma_prefix_mismatch(prefix: Seq<char>, data: Seq<char>, k: int)
    requires
        0 <= k < prefix.len(),
        k < data.len(),
        data[k] != prefix[k],
    ensures
        spec_strip_prefix(prefix, data) is None,
        !spec_starts_with(data, prefix),
        spec_parse_usize_with_prefix(prefix, data) is None,
        spec_parse_i64_with_prefix(prefix, data) is None,
{
    if prefix.len() <= data.len() && data.subrange(0, prefix.len() as int) == prefix {
        assert(data.subrange(0, prefix.len() as int)[k] == data[k]);
    }
}

/// The characters of the data prefixes.
proof fn reveal_prefixes()
    ensures
        "seltz::"@ == seq!['s', 'e', 'l', 't', 'z', ':', ':'],
        "seltz::page::"@ == seq!['s', 'e', 'l', 't', 'z', ':', ':', 'p', 'a', 'g', 'e', ':', ':'],
        "seltz::tz::"@ == seq!['s', 'e', 'l', 't', 'z', ':', ':', 't', 'z', ':', ':'],
        "setlang::"@ == seq!['s', 'e', 't', 'l', 'a', 'n', 'g', ':', ':'],
        "setlang::lang::"@ == seq!['s', 'e', 't', 'l', 'a', 'n', 'g', ':', ':', 'l', 'a', 'n', 'g', ':', ':'],
        "settings::"@ == seq!['s', 'e', 't', 't', 'i', 'n', 'g', 's', ':', ':'],
        "settings::change_lang"@ == seq!['s', 'e', 't', 't', 'i', 'n', 'g', 's', ':', ':', 'c', 'h', 'a', 'n', 'g', 'e', '_', 'l', 'a', 'n', 'g'],
        "donerem::occ::"@ == seq!['d', 'o', 'n', 'e', 'r', 'e', 'm', ':', ':', 'o', 'c', 'c', ':', ':'],
        "edit_rem_mode::rem_time_pattern::"@ == seq!['e', 'd', 'i', 't', '_', 'r', 'e', 'm', '_', 'm', 'o', 'd', 'e', ':', ':', 'r', 'e', 'm', '_', 't', 'i', 'm', 'e', '_', 'p', 'a', 't', 't', 'e', 'r', 'n', ':', ':'],
        "edit_rem_mode::rem_description::"@ == seq!['e', 'd', 'i', 't', '_', 'r', 'e', 'm', '_', 'm', 'o', 'd', 'e', ':', ':', 'r', 'e', 'm', '_', 'd', 'e', 's', 'c', 'r', 'i', 'p', 't', 'i', 'o', 'n', ':', ':'],
        "delrem"@ == seq!['d', 'e', 'l', 'r', 'e', 'm'],
        "editrem"@ == seq!['e', 'd', 'i', 't', 'r', 'e', 'm'],
        "pauserem"@ == seq!['p', 'a', 'u', 's', 'e', 'r', 'e', 'm'],
        "::page::"@ == seq![':', ':', 'p', 'a', 'g', 'e', ':', ':'],
        "::"@ == seq![':', ':'],
        "rem"@ == seq!['r', 'e', 'm'],
        "_alt::"@ == seq!['_', 'a', 'l', 't', ':', ':'],
{
    reveal_strlit("seltz::");
    reveal_strlit("seltz::page::");
    reveal_strlit("seltz::tz::");
    reveal_strlit("setlang::");
    reveal_strlit("setlang::lang::");
    reveal_strlit("settings::");
    reveal_strlit("settings::change_lang");
    reveal_strlit("donerem::occ::");
    reveal_strlit("edit_rem_mode::rem_time_pattern::");
    reveal_strlit("edit_rem_mode::rem_description::");
    reveal_strlit("delrem");
    reveal_strlit("editrem");
    reveal_strlit("pauserem");
    reveal_strlit("::page::");
    reveal_strlit("::");
    reveal_strlit("rem");
    reveal_strlit("_alt::");
}

/// The data of a button that is not one of the menus that need no timezone.
proof fn lemma_not_menu(data: Seq<char>)
    requires
        data.len() > 1,
        data[0] != 's',
        data[0] != 'd' || data[1] != 'o',
    ensures
        !spec_starts_with(data, SELECT_TIMEZONE_PREFIX@),
        !spec_starts_with(data, SET_LANGUAGE_PREFIX@),
        !spec_starts_with(data, SETTINGS_PREFIX@),
        !spec_starts_with(data, DONE_OCCURRENCE_PREFIX@),
        spec_parse_usize_with_prefix(SELECT_TIMEZONE_PAGE_PREFIX@, data) is None,
        spec_strip_prefix(SELECT_TIMEZONE_TZ_PREFIX@, data) is None,
        data != SETTINGS_CHANGE_LANGUAGE@,
        spec_strip_prefix(SET_LANGUAGE_CODE_PREFIX@, data) is None,
{
    reveal_prefixes();
    lemma_prefix_mismatch(SELECT_TIMEZONE_PREFIX@, data, 0);
    lemma_prefix_mismatch(SET_LANGUAGE_PREFIX@, data, 0);
    lemma_prefix_mismatch(SETTINGS_PREFIX@, data, 0);
    lemma_prefix_mismatch(SELECT_TIMEZONE_PAGE_PREFIX@, data, 0);
    lemma_prefix_mismatch(SELECT_TIMEZONE_TZ_PREFIX@, data, 0);
    lemma_prefix_mismatch(SET_LANGUAGE_CODE_PREFIX@, data, 0);
    if data[0] == 'd' {
        lemma_prefix_mismatch(DONE_OCCURRENCE_PREFIX@, data, 1);
    } else {
        lemma_prefix_mismatch(DONE_OCCURRENCE_PREFIX@, data, 0);
    }
    assert(data[0] != SETTINGS_CHANGE_LANGUAGE@[0]);
}

/// For a known user with a timezone, each command goes to its own handler, whatever the
/// chat and the state of the conversation: `/delete` starts deleting, `/edit` editing,
/// `/pause` pausing, `/list` lists, `/cancel` cancels an edit, `/timezone` shows the
/// timezone, `/settimezone` asks for one, `/settings` opens the settings, `/help` helps,
/// `/start` greets (a group as a group) and `/set` sets the reminder its text holds.
pub proof fn law_command_routes_to_its_handler(
    c: Command,
    private_chat: bool,
    has_location: bool,
    text: Option<String>,
    state: State,
    r: Route,
)
    requires
        route_is(
            Incoming::Message { command: Some(c), private_chat, has_location, text },
            true,
            true,
            state,
            r,
        ),
    ensures
        c is Delete ==> r is StartDelete,
        c is Edit ==> r is StartEdit,
        c is Pause ==> r is StartPause,
        c is List ==> r is List,
        c is Cancel ==> r is CancelEdit,
        c is Timezone ==> r is ShowTimezone,
        c is SetTimezone ==> r is ChooseTimezone,
        c is Settings ==> r is ChooseSettings,
        c is Help ==> r is Help,
        c is Start ==> (if private_chat { r is Start } else { r is StartGroup }),
        c matches Command::SetReminder(t) ==> (r matches Route::SetReminder(u) && u@ == t@),
{
}

/// Without a timezone, the commands that need one ask the user for it first.
pub proof fn law_commands_ask_for_timezone(
    c: Command,
    private_chat: bool,
    has_location: bool,
    text: Option<String>,
    state: State,
    r: Route,
)
    requires
        route_is(
            Incoming::Message { command: Some(c), private_chat, has_location, text },
            true,
            false,
            state,
            r,
        ),
        c is Delete || c is Edit || c is Pause || c is List || c is Cancel || c is Timezone
            || c is SetReminder,
    ensures
        r is ChooseTimezone,
{
}

/// The "done" button under a nagging reminder marks that occurrence done, whether or not
/// the user's timezone is known.
pub proof fn law_done_button_routes(occ_id: i64, has_timezone: bool, r: Route)
    requires
        callback_route_is(spec_done_occurrence(occ_id), has_timezone, r),
    ensures
        r matches Route::Callback(CallbackAction::DoneOccurrence(id)) && id == occ_id,
{
    let data = spec_done_occurrence(occ_id);
    reveal_prefixes();
    law_done_occurrence_roundtrip(occ_id);
    assert(data[0] == 'd');
    lemma_prefix_mismatch(SELECT_TIMEZONE_PREFIX@, data, 0);
    lemma_prefix_mismatch(SET_LANGUAGE_PREFIX@, data, 0);
    lemma_prefix_mismatch(SETTINGS_PREFIX@, data, 0);
}

/// A page button of the timezone menu shows that page.
pub proof fn law_timezone_page_button_routes(page_num: usize, has_timezone: bool, r: Route)
    requires
        callback_route_is(spec_select_timezone_page(page_num), has_timezone, r),
    ensures
        r matches Route::Callback(CallbackAction::SelectTimezonePage(n)) && n == page_num,
{
    law_select_timezone_page_roundtrip(page_num);
}

/// A timezone button sets that timezone.
pub proof fn law_timezone_button_routes(tz_name: Seq<char>, has_timezone: bool, r: Route)
    requires
        callback_route_is(spec_select_timezone_tz(tz_name), has_timezone, r),
    ensures
        r matches Route::Callback(CallbackAction::SetTimezone(t)) && t@ == tz_name,
{
    let data = spec_select_timezone_tz(tz_name);
    reveal_prefixes();
    law_select_timezone_tz_roundtrip(tz_name);
    assert(data[7] == 't');
    lemma_prefix_mismatch(SELECT_TIMEZONE_PAGE_PREFIX@, data, 7);
}

/// A language button sets that language.
pub proof fn law_language_button_routes(lang_code: Seq<char>, has_timezone: bool, r: Route)
    requires
        callback_route_is(spec_set_language(lang_code), has_timezone, r),
    ensures
        r matches Route::Callback(CallbackAction::SetLanguage(c)) && c@ == lang_code,
{
    let data = spec_set_language(lang_code);
    reveal_prefixes();
    law_set_language_roundtrip(lang_code);
    assert(data[2] == 't');
    lemma_prefix_mismatch(SELECT_TIMEZONE_PREFIX@, data, 2);
}

/// The settings button opens the language menu.
pub proof fn law_change_language_button_routes(has_timezone: bool, r: Route)
    requires
        callback_route_is(SETTINGS_CHANGE_LANGUAGE@, has_timezone, r),
    ensures
        r matches Route::Callback(CallbackAction::ChooseLanguage),
{
    let data = SETTINGS_CHANGE_LANGUAGE@;
    reveal_prefixes();
    law_settings_change_language_is_settings();
    lemma_prefix_mismatch(SELECT_TIMEZONE_PREFIX@, data, 2);
    lemma_prefix_mismatch(SET_LANGUAGE_PREFIX@, data, 3);
}

/// The data of the buttons of a list of reminders, beyond its prefix word.
proof fn lemma_list_data(kind: ReminderListKind, data: Seq<char>, tail: Seq<char>)
    requires
        data == kind.spec_prefix() + tail,
        tail.len() > 0,
    ensures
        data.len() > 1,
        data[0] != 's',
        data[0] != 'd' || data[1] != 'o',
        kind is Delete <==> data[0] == 'd',
        kind is Edit <==> data[0] == 'e',
        kind is Pause <==> data[0] == 'p',
{
    reveal_prefixes();
    assert(data[0] == kind.spec_prefix()[0]);
    assert(data[1] == kind.spec_prefix()[1]);
}

/// The earlier lists' prefixes do not match a list's data.
proof fn lemma_other_lists(kind: ReminderListKind, data: Seq<char>)
    requires
        data.len() > 0,
        kind is Delete <==> data[0] == 'd',
        kind is Edit <==> data[0] == 'e',
        kind is Pause <==> data[0] == 'p',
    ensures
        !(kind is Delete) ==> spec_parse_usize_with_prefix(spec_page_prefix(ReminderListKind::Delete), data) is None
            && spec_parse_i64_with_prefix(spec_alter_prefix(ReminderListKind::Delete, "rem"@), data) is None,
        !(kind is Edit) ==> spec_parse_usize_with_prefix(spec_page_prefix(ReminderListKind::Edit), data) is None
            && spec_parse_i64_with_prefix(spec_alter_prefix(ReminderListKind::Edit, "rem"@), data) is None,
        !(kind is Pause) ==> spec_parse_usize_with_prefix(spec_page_prefix(ReminderListKind::Pause), data) is None
            && spec_parse_i64_with_prefix(spec_alter_prefix(ReminderListKind::Pause, "rem"@), data) is None,
{
    reveal_prefixes();
    let ks = seq![ReminderListKind::Delete, ReminderListKind::Edit, ReminderListKind::Pause];
    assert forall|i: int| 0 <= i < 3 && ks[i] != kind implies
        spec_parse_usize_with_prefix(spec_page_prefix(#[trigger] ks[i]), data) is None
            && spec_parse_i64_with_prefix(spec_alter_prefix(ks[i], "rem"@), data) is None by {
        let other = ks[i];
        assert(spec_page_prefix(other)[0] == other.spec_prefix()[0]);
        assert(spec_alter_prefix(other, "rem"@)[0] == other.spec_prefix()[0]);
        lemma_prefix_mismatch(spec_page_prefix(other), data, 0);
        lemma_prefix_mismatch(spec_alter_prefix(other, "rem"@), data, 0);
    }
    assert(ks[0] == ReminderListKind::Delete && ks[1] == ReminderListKind::Edit && ks[2]
        == ReminderListKind::Pause);
}

/// A page button of a list of reminders shows that page of the list.
pub proof fn law_reminder_page_button_routes(kind: ReminderListKind, page_num: usize, r: Route)
    requires
        callback_route_is(spec_reminder_page(kind, page_num), true, r),
    ensures
        r matches Route::Callback(a) && (match kind {
            ReminderListKind::Delete => a == CallbackAction::DeletePage(page_num),
            ReminderListKind::Edit => a == CallbackAction::EditPage(page_num),
            ReminderListKind::Pause => a == CallbackAction::PausePage(page_num),
        }),
{
    let data = spec_reminder_page(kind, page_num);
    reveal_prefixes();
    law_reminder_page_roundtrip(kind, page_num);
    crate::text::lemma_nat_to_decimal(page_num as nat);
    assert(data == kind.spec_prefix() + (PAGE_INFIX@ + crate::text::nat_to_decimal(page_num as nat)));
    lemma_list_data(kind, data, PAGE_INFIX@ + crate::text::nat_to_decimal(page_num as nat));
    lemma_not_menu(data);
    lemma_other_lists(kind, data);
}

/// A reminder button of a list deletes, edits or pauses that reminder.
pub proof fn law_reminder_button_routes(kind: ReminderListKind, rem_id: i64, r: Route)
    requires
        callback_route_is(spec_reminder_alter(kind, "rem"@, rem_id), true, r),
    ensures
        r matches Route::Callback(a) && (match kind {
            ReminderListKind::Delete => a == CallbackAction::DeleteReminder(rem_id),
            ReminderListKind::Edit => a == CallbackAction::ChooseEditMode(rem_id),
            ReminderListKind::Pause => a == CallbackAction::PauseReminder(rem_id),
        }),
{
    let data = spec_reminder_alter(kind, "rem"@, rem_id);
    reveal_prefixes();
    law_reminder_alter_roundtrip(kind, "rem"@, rem_id);
    let tail = ALTER_SEPARATOR@ + "rem"@ + ALTER_INFIX@ + crate::text::int_to_decimal(rem_id as int);
    assert(data =~= kind.spec_prefix() + tail);
    lemma_list_data(kind, data, tail);
    lemma_not_menu(data);
    lemma_other_lists(kind, data);
    let n = kind.spec_prefix().len() as int;
    assert(data[n + 2] == 'r');
    assert(spec_page_prefix(kind)[n + 2] == 'p');
    lemma_prefix_mismatch(spec_page_prefix(kind), data, n + 2);
}

/// The edit-mode buttons ask for a new time pattern or a new description of that reminder.
pub proof fn law_edit_mode_buttons_route(rem_id: i64, r1: Route, r2: Route)
    requires
        callback_route_is(spec_edit_mode_time_pattern(rem_id), true, r1),
        callback_route_is(spec_edit_mode_description(rem_id), true, r2),
    ensures
        r1 matches Route::Callback(CallbackAction::EditTimePattern(i)) && i == rem_id,
        r2 matches Route::Callback(CallbackAction::EditDescription(i)) && i == rem_id,
{
    reveal_prefixes();
    law_edit_mode_roundtrip(rem_id);
    let d1 = spec_edit_mode_time_pattern(rem_id);
    let d2 = spec_edit_mode_description(rem_id);
    crate::text::lemma_nat_to_decimal(0);
    assert(d1[0] == 'e' && d1[1] == 'd' && d1[4] == '_' && d1[19] == 't');
    assert(d2[0] == 'e' && d2[1] == 'd' && d2[4] == '_' && d2[19] == 'd');
    lemma_not_menu(d1);
    lemma_not_menu(d2);
    lemma_other_lists(ReminderListKind::Edit, d1);
    lemma_other_lists(ReminderListKind::Edit, d2);
    assert(spec_page_prefix(ReminderListKind::Edit)[4] == 'r');
    assert(spec_alter_prefix(ReminderListKind::Edit, "rem"@)[4] == 'r');
    lemma_prefix_mismatch(spec_page_prefix(ReminderListKind::Edit), d1, 4);
    lemma_prefix_mismatch(spec_alter_prefix(ReminderListKind::Edit, "rem"@), d1, 4);
    lemma_prefix_mismatch(spec_page_prefix(ReminderListKind::Edit), d2, 4);
    lemma_prefix_mismatch(spec_alter_prefix(ReminderListKind::Edit, "rem"@), d2, 4);
    lemma_prefix_mismatch(EDIT_MODE_TIME_PATTERN_PREFIX@, d2, 19);
}

} // verus!
