//! How a reminder is shown to its user, and the order reminders are listed in.
use vstd::prelude::*;

use crate::calendar::{datetime_lt, datetime_lt_exec, DateTime};
use crate::text::{int_to_decimal, nat_to_decimal, push_char, push_i64_decimal, push_u64_decimal};

verus! {

/// A stored reminder, as far as showing and ordering it goes; its time is where the user is.
#[derive(Debug)]
pub struct ReminderEntry {
    pub id: Option<i64>,
    pub chat_id: i64,
    pub user_id: Option<i64>,
    pub time: DateTime,
    pub desc: String,
    pub paused: bool,
    pub nag_interval_sec: Option<i64>,
    /// The reminder's pattern as text, where it has one to show.
    pub pattern_text: Option<String>,
}

// ---------------------------------------------------------------------------
// the Telegram crate's markdown helpers and chat ids

/// The characters that MarkdownV2 reserves.
pub open spec fn is_markdown_special(c: char) -> bool {
    c == '\\' || c == '_' || c == '*' || c == '[' || c == ']' || c == '(' || c == ')' || c == '~'
        || c == '`' || c == '>' || c == '#' || c == '+' || c == '-' || c == '=' || c == '|' || c
        == '{' || c == '}' || c == '.' || c == '!'
}

/// A text with a backslash put before each reserved character.
pub open spec fn spec_escape(s: Seq<char>) -> Seq<char>
    decreases s.len(),
{
    if s.len() == 0 {
        Seq::empty()
    } else {
        spec_escape(s.drop_last()) + if is_markdown_special(s.last()) {
            seq!['\\', s.last()]
        } else {
            seq![s.last()]
        }
    }
}

/// `teloxide::utils::markdown::escape`: puts a backslash before each character that
/// MarkdownV2 reserves (the backslash among them), and keeps the others.
#[verifier::external_body]
fn escape(s: &str) -> (r: String)
    ensures
        r@ == spec_escape(s@),
{
    teloxide::utils::markdown::escape(s)
}

/// A text made ready for MarkdownV2: a backslash before each reserved character.
pub fn markdown_escape(s: &str) -> (r: String)
    ensures
        r@ == spec_escape(s@),
{
    escape(s)
}

/// `teloxide::utils::markdown::bold`: the text between two asterisks.
#[verifier::external_body]
fn bold(s: &str) -> (r: String)
    ensures
        r@ == seq!['*'] + s@ + seq!['*'],
{
    teloxide::utils::markdown::bold(s)
}

/// The chat ids that Telegram can give: from the lowest channel id to the highest user id.
pub open spec fn valid_chat_id(id: int) -> bool {
    -1997852516352 <= id <= 0xff_ffff_ffff
}

/// `ChatId::is_group`: whether the id is that of a group (not a supergroup); the crate
/// panics on other ids than Telegram gives.
#[verifier::external_body]
fn chat_is_group(chat_id: i64) -> (r: bool)
    requires
        valid_chat_id(chat_id as int),
    ensures
        r == (-999_999_999_999 <= chat_id <= -1),
{
    teloxide::types::ChatId(chat_id).is_group()
}

/// `ChatId::is_channel_or_supergroup`: whether the id is that of a channel or supergroup.
#[verifier::external_body]
fn chat_is_channel_or_supergroup(chat_id: i64) -> (r: bool)
    requires
        valid_chat_id(chat_id as int),
    ensures
        r == (-1997852516352 <= chat_id <= -1_000_000_000_000),
{
    teloxide::types::ChatId(chat_id).is_channel_or_supergroup()
}

// ---------------------------------------------------------------------------
// numbers and times as text

/// A number with at least two digits, as `{:02}` writes it.
pub open spec fn pad2(n: nat) -> Seq<char> {
    if n < 10 {
        seq!['0'] + nat_to_decimal(n)
    } else {
        nat_to_decimal(n)
    }
}

fn push_pad2(s: &mut String, n: u32)
    ensures
        final(s)@ == old(s)@ + pad2(n as nat),
{
    if n < 10 {
        push_char(s, '0');
        push_u64_decimal(s, n as u64);
        assert(old(s)@.push('0') + nat_to_decimal(n as nat) =~= old(s)@ + (seq!['0'] + nat_to_decimal(
            n as nat,
        )));
    } else {
        push_u64_decimal(s, n as u64);
    }
}

pub open spec fn nag_unit_secs(k: nat) -> int {
    if k == 0 {
        604800
    } else if k == 1 {
        86400
    } else if k == 2 {
        3600
    } else if k == 3 {
        60
    } else {
        1
    }
}

pub open spec fn nag_unit_suffix(k: nat) -> char {
    if k == 0 {
        'w'
    } else if k == 1 {
        'd'
    } else if k == 2 {
        'h'
    } else if k == 3 {
        'm'
    } else {
        's'
    }
}

/// The units from the `k`-th on (weeks, days, hours, minutes, seconds) that `secs` holds.
pub open spec fn nag_parts(secs: int, k: nat) -> Seq<char>
    decreases 5 - k,
{
    if k >= 5 {
        Seq::empty()
    } else {
        let v = secs / nag_unit_secs(k);
        if v > 0 {
            nat_to_decimal(v as nat) + seq![nag_unit_suffix(k)] + nag_parts(secs % nag_unit_secs(k), k + 1)
        } else {
            nag_parts(secs, k + 1)
        }
    }
}

/// A nagging interval as text: `1w2d3h4m5s` with the units that are there, `0s` for none.
pub open spec fn spec_format_nag_interval(secs: int) -> Seq<char> {
    if secs <= 0 || nag_parts(secs, 0).len() == 0 {
        seq!['0', 's']
    } else {
        nag_parts(secs, 0)
    }
}

/// Writes a nagging interval in weeks, days, hours, minutes and seconds, leaving out
/// the units it has none of.
pub fn format_nag_interval(secs: i64) -> (r: String)
    ensures
        r@ == spec_format_nag_interval(secs as int),
{
    let mut s = String::new();
    if secs <= 0 {
        push_char(&mut s, '0');
        push_char(&mut s, 's');
        return s;
    }
    let mut rest = secs;
    let mut k: u32 = 0;
    while k < 5
        invariant
            k <= 5,
            rest > 0 || (rest == 0 && s@.len() > 0),
            rest >= 0,
            k == 5 ==> rest == 0,
            s@ + nag_parts(rest as int, k as nat) == nag_parts(secs as int, 0),
        decreases 5 - k,
    {
        let unit: i64 = if k == 0 {
            604800
        } else if k == 1 {
            86400
        } else if k == 2 {
            3600
        } else if k == 3 {
            60
        } else {
            1
        };
        let suffix = if k == 0 {
            'w'
        } else if k == 1 {
            'd'
        } else if k == 2 {
            'h'
        } else if k == 3 {
            'm'
        } else {
            's'
        };
        let v = rest / unit;
        if v > 0 {
            let ghost before = s@;
            push_u64_decimal(&mut s, v as u64);
            push_char(&mut s, suffix);
            proof {
                assert(s@ =~= before + (nat_to_decimal(v as nat) + seq![suffix]));
                assert(nat_to_decimal(v as nat).len() > 0) by {
                    reveal_with_fuel(nat_to_decimal, 2);
                }
            }
            rest = rest % unit;
        }
        k += 1;
    }
    assert(nag_parts(rest as int, 5) == Seq::<char>::empty());
    assert(s@ =~= nag_parts(secs as int, 0));
    s
}

/// The time of a reminder as its list shows it: `dd.mm[.year] ` before `hh:mm` where the
/// date is not today, the year where it is not this year.
pub open spec fn spec_serialize_time(time: DateTime, now: DateTime) -> Seq<char> {
    let date_part = if time.date != now.date {
        pad2(time.date.day as nat) + seq!['.'] + pad2(time.date.month as nat) + (if time.date.year
            != now.date.year {
            seq!['.'] + int_to_decimal(time.date.year as int)
        } else {
            Seq::empty()
        }) + seq![' ']
    } else {
        Seq::empty()
    };
    date_part + pad2((time.time.secs / 3600) as nat) + seq![':'] + pad2(
        ((time.time.secs % 3600) / 60) as nat,
    )
}

/// The time of a reminder as text; `now` is the current time where the user is.
pub fn serialize_time_unescaped(time: &DateTime, now: &DateTime) -> (r: String)
    ensures
        r@ == spec_serialize_time(*time, *now),
{
    let mut s = String::new();
    if time.date != now.date {
        push_pad2(&mut s, time.date.day);
        push_char(&mut s, '.');
        push_pad2(&mut s, time.date.month);
        if time.date.year != now.date.year {
            push_char(&mut s, '.');
            push_i64_decimal(&mut s, time.date.year as i64);
        }
        push_char(&mut s, ' ');
    }
    push_pad2(&mut s, time.time.secs / 3600);
    push_char(&mut s, ':');
    push_pad2(&mut s, (time.time.secs % 3600) / 60);
    proof {
        let ghost dp = if time.date != now.date {
            pad2(time.date.day as nat) + seq!['.'] + pad2(time.date.month as nat) + (
            if time.date.year != now.date.year {
                seq!['.'] + int_to_decimal(time.date.year as int)
            } else {
                Seq::empty()
            }) + seq![' ']
        } else {
            Seq::empty()
        };
        assert(s@ =~= dp + pad2((time.time.secs / 3600) as nat) + seq![':'] + pad2(
            ((time.time.secs % 3600) / 60) as nat,
        ));
    }
    s
}

// ---------------------------------------------------------------------------
// reminders as text

/// The time, description and pattern of a reminder as plain text.
pub open spec fn spec_main_part(r: ReminderEntry, now: DateTime) -> Seq<char> {
    let head = spec_serialize_time(r.time, now) + seq![' ', '<'] + r.desc@ + seq!['>'];
    match r.pattern_text {
        Some(p) => if p@.len() == 0 {
            head
        } else {
            head + seq![' ', '['] + p@ + seq![']']
        },
        None => head,
    }
}

/// A reminder as plain text: its time and `<description>`, its pattern as `[…]` where
/// that is not empty, the nagging interval as `[!…]`, and a pause sign in front where it
/// is paused.
pub open spec fn spec_to_unescaped_string(r: ReminderEntry, now: DateTime) -> Seq<char> {
    let main = spec_main_part(r, now);
    let with_nag = match r.nag_interval_sec {
        Some(n) => main + seq![' ', '[', '!'] + spec_format_nag_interval(n as int) + seq![']'],
        None => main,
    };
    if r.paused {
        "⏸ "@ + with_nag
    } else {
        with_nag
    }
}

/// The time, bold description and pattern of a reminder as MarkdownV2 text.
pub open spec fn spec_main_part_escaped(r: ReminderEntry, now: DateTime) -> Seq<char> {
    let head = spec_escape(spec_serialize_time(r.time, now)) + seq![' ', '<', '*'] + spec_escape(
        r.desc@,
    ) + seq!['*', '\\', '>'];
    match r.pattern_text {
        Some(p) => if p@.len() == 0 {
            head
        } else {
            head + seq![' ', '\\', '['] + spec_escape(p@) + seq!['\\', ']']
        },
        None => head,
    }
}

/// A reminder as MarkdownV2 text: as the plain text, with the time and description
/// escaped and the description in bold.
pub open spec fn spec_to_string(r: ReminderEntry, now: DateTime) -> Seq<char> {
    let main = spec_main_part_escaped(r, now);
    let with_nag = match r.nag_interval_sec {
        Some(n) => main + seq![' ', '\\', '[', '\\', '!'] + spec_format_nag_interval(n as int) + seq![
            '\\',
            ']',
        ],
        None => main,
    };
    if r.paused {
        "⏸ "@ + with_nag
    } else {
        with_nag
    }
}

fn push_str(s: &mut String, t: &str)
    ensures
        final(s)@ == old(s)@ + t@,
{
    s.append(t);
}

fn main_part(r: &ReminderEntry, now: &DateTime) -> (out: String)
    ensures
        out@ == spec_main_part(*r, *now),
{
    let mut s = String::new();
    let time = serialize_time_unescaped(&r.time, now);
    push_str(&mut s, time.as_str());
    push_char(&mut s, ' ');
    push_char(&mut s, '<');
    push_str(&mut s, r.desc.as_str());
    push_char(&mut s, '>');
    let ghost head = spec_serialize_time(r.time, *now) + seq![' ', '<'] + r.desc@ + seq!['>'];
    assert(s@ =~= head);
    if let Some(p) = &r.pattern_text {
        if p.as_str().unicode_len() > 0 {
            push_char(&mut s, ' ');
            push_char(&mut s, '[');
            push_str(&mut s, p.as_str());
            push_char(&mut s, ']');
            assert(s@ =~= head + seq![' ', '['] + p@ + seq![']']);
        }
    }
    s
}

/// The reminder as plain text; `now` is the current time where the user is.
pub fn to_unescaped_string(r: &ReminderEntry, now: &DateTime) -> (out: String)
    ensures
        out@ == spec_to_unescaped_string(*r, *now),
{
    let mut s = String::new();
    if r.paused {
        push_str(&mut s, "⏸ ");
    }
    let ghost prefix = s@;
    let main_part = main_part(r, now);
    push_str(&mut s, main_part.as_str());
    let ghost main = spec_main_part(*r, *now);
    assert(s@ =~= prefix + main);
    if let Some(n) = r.nag_interval_sec {
        push_char(&mut s, ' ');
        push_char(&mut s, '[');
        push_char(&mut s, '!');
        let nag = format_nag_interval(n);
        push_str(&mut s, nag.as_str());
        push_char(&mut s, ']');
        assert(s@ =~= prefix + (main + seq![' ', '[', '!'] + spec_format_nag_interval(n as int)
            + seq![']']));
    }
    proof {
        if !r.paused {
            assert(prefix =~= Seq::<char>::empty());
        }
    }
    s
}

fn main_part_escaped(r: &ReminderEntry, now: &DateTime) -> (out: String)
    ensures
        out@ == spec_main_part_escaped(*r, *now),
{
    let mut s = String::new();
    let time = serialize_time_unescaped(&r.time, now);
    let time_escaped = escape(time.as_str());
    push_str(&mut s, time_escaped.as_str());
    push_char(&mut s, ' ');
    push_char(&mut s, '<');
    let desc = bold(escape(r.desc.as_str()).as_str());
    push_str(&mut s, desc.as_str());
    push_char(&mut s, '\\');
    push_char(&mut s, '>');
    let ghost head = spec_escape(spec_serialize_time(r.time, *now)) + seq![' ', '<', '*'] + spec_escape(
        r.desc@,
    ) + seq!['*', '\\', '>'];
    assert(s@ =~= head);
    if let Some(p) = &r.pattern_text {
        if p.as_str().unicode_len() > 0 {
            push_char(&mut s, ' ');
            push_char(&mut s, '\\');
            push_char(&mut s, '[');
            let pe = escape(p.as_str());
            push_str(&mut s, pe.as_str());
            push_char(&mut s, '\\');
            push_char(&mut s, ']');
            assert(s@ =~= head + seq![' ', '\\', '['] + spec_escape(p@) + seq!['\\', ']']);
        }
    }
    s
}

/// The reminder as MarkdownV2 text; `now` is the current time where the user is.
pub fn to_string(r: &ReminderEntry, now: &DateTime) -> (out: String)
    ensures
        out@ == spec_to_string(*r, *now),
{
    let mut s = String::new();
    if r.paused {
        push_str(&mut s, "⏸ ");
    }
    let ghost prefix = s@;
    let main_part = main_part_escaped(r, now);
    push_str(&mut s, main_part.as_str());
    let ghost main = spec_main_part_escaped(*r, *now);
    assert(s@ =~= prefix + main);
    if let Some(n) = r.nag_interval_sec {
        push_char(&mut s, ' ');
        push_char(&mut s, '\\');
        push_char(&mut s, '[');
        push_char(&mut s, '\\');
        push_char(&mut s, '!');
        let nag = format_nag_interval(n);
        push_str(&mut s, nag.as_str());
        push_char(&mut s, '\\');
        push_char(&mut s, ']');
        assert(s@ =~= prefix + (main + seq![' ', '\\', '[', '\\', '!'] + spec_format_nag_interval(
            n as int,
        ) + seq!['\\', ']']));
    }
    proof {
        if !r.paused {
            assert(prefix =~= Seq::<char>::empty());
        }
    }
    s
}

/// A reminder that mentions its user: a bell linking to the user, then the reminder.
pub open spec fn spec_to_string_with_mention(r: ReminderEntry, now: DateTime, user_id: i64) -> Seq<
    char,
> {
    "[🔔](tg://user?id="@ + int_to_decimal(user_id as int) + seq![')', '\n'] + spec_to_string(r, now)
}

pub fn to_string_with_mention(r: &ReminderEntry, now: &DateTime, user_id: i64) -> (out: String)
    ensures
        out@ == spec_to_string_with_mention(*r, *now, user_id),
{
    let mut s = String::new();
    push_str(&mut s, "[🔔](tg://user?id=");
    push_i64_decimal(&mut s, user_id);
    push_char(&mut s, ')');
    push_char(&mut s, '\n');
    let body = to_string(r, now);
    push_str(&mut s, body.as_str());
    assert(s@ =~= spec_to_string_with_mention(*r, *now, user_id));
    s
}

/// Whether a chat is a group, a supergroup or a channel.
pub open spec fn spec_is_group(chat_id: int) -> bool {
    -1997852516352 <= chat_id <= -1
}

/// A reminder as it is sent: in a group it mentions the user who set it.
pub open spec fn spec_format_reminder(r: ReminderEntry, now: DateTime) -> Seq<char> {
    match r.user_id {
        Some(u) => if spec_is_group(r.chat_id as int) {
            spec_to_string_with_mention(r, now, u)
        } else {
            spec_to_string(r, now)
        },
        None => spec_to_string(r, now),
    }
}

pub fn format_reminder(r: &ReminderEntry, now: &DateTime) -> (out: String)
    requires
        valid_chat_id(r.chat_id as int),
    ensures
        out@ == spec_format_reminder(*r, *now),
{
    match r.user_id {
        Some(u) => if chat_is_group(r.chat_id) || chat_is_channel_or_supergroup(r.chat_id) {
            to_string_with_mention(r, now, u)
        } else {
            to_string(r, now)
        },
        None => to_string(r, now),
    }
}

/// The text with a zero-width space after each `@`, so that it mentions nobody.
pub open spec fn spec_escape_mentions(s: Seq<char>) -> Seq<char>
    decreases s.len(),
{
    if s.len() == 0 {
        Seq::empty()
    } else {
        spec_escape_mentions(s.drop_last()) + if s.last() == '@' {
            seq!['@', '\u{200B}']
        } else {
            seq![s.last()]
        }
    }
}

pub fn escape_mentions(text: &str) -> (r: String)
    ensures
        r@ == spec_escape_mentions(text@),
{
    let n = text.unicode_len();
    let mut s = String::new();
    let mut i: usize = 0;
    while i < n
        invariant
            n == text@.len(),
            i <= n,
            s@ == spec_escape_mentions(text@.subrange(0, i as int)),
        decreases n - i,
    {
        let c = text.get_char(i);
        assert(text@.subrange(0, i + 1).drop_last() =~= text@.subrange(0, i as int));
        if c == '@' {
            push_char(&mut s, '@');
            push_char(&mut s, '\u{200B}');
        } else {
            push_char(&mut s, c);
        }
        assert(s@ =~= spec_escape_mentions(text@.subrange(0, i + 1)));
        i += 1;
    }
    assert(text@.subrange(0, n as int) =~= text@);
    s
}

// ---------------------------------------------------------------------------
// order

/// A reminder is listed before another where it is running and the other paused, or
/// where both are alike in that and it is due earlier.
pub open spec fn entry_lt(a: ReminderEntry, b: ReminderEntry) -> bool {
    (!a.paused && b.paused) || (a.paused == b.paused && datetime_lt(a.time, b.time))
}

/// No reminder is listed after one it goes before.
pub open spec fn entries_sorted(s: Seq<ReminderEntry>) -> bool {
    forall|i: int, j: int| 0 <= i < j < s.len() ==> !entry_lt(#[trigger] s[j], #[trigger] s[i])
}

/// A sorted list of reminders lists the running ones before the paused ones, and each of
/// the two parts by time, the earliest first.
pub proof fn law_sorted_reminders_order(s: Seq<ReminderEntry>, i: int, j: int)
    requires
        entries_sorted(s),
        0 <= i < j < s.len(),
    ensures
        s[i].paused ==> s[j].paused,
        s[i].paused == s[j].paused ==> !datetime_lt(s[j].time, s[i].time),
{
    assert(!entry_lt(s[j], s[i]));
}

pub proof fn lemma_entry_lt_order(a: ReminderEntry, b: ReminderEntry, c: ReminderEntry)
    ensures
        entry_lt(a, b) && entry_lt(b, c) ==> entry_lt(a, c),
        !(entry_lt(a, b) && entry_lt(b, a)),
{
}

fn entry_lt_exec(a: &ReminderEntry, b: &ReminderEntry) -> (r: bool)
    ensures
        r == entry_lt(*a, *b),
{
    (!a.paused && b.paused) || (a.paused == b.paused && datetime_lt_exec(&a.time, &b.time))
}

/// Sorts reminders: running ones first, each part by time; the reminders are the same.
pub fn sort_reminders(reminders: Vec<ReminderEntry>) -> (r: Vec<ReminderEntry>)
    ensures
        r@.to_multiset() == reminders@.to_multiset(),
        entries_sorted(r@),
{
    broadcast use vstd::seq_lib::to_multiset_build, vstd::seq_lib::to_multiset_insert;

    let mut rest = reminders;
    let mut out: Vec<ReminderEntry> = Vec::new();
    assert(out@.to_multiset() =~= vstd::multiset::Multiset::empty()) by {
        broadcast use vstd::seq_lib::to_multiset_len;
        assert(out@.to_multiset().len() == 0);
    }
    while rest.len() > 0
        invariant
            out@.to_multiset().add(rest@.to_multiset()) == reminders@.to_multiset(),
            entries_sorted(out@),
        decreases rest.len(),
    {
        let ghost before = rest@;
        let x = rest.pop().unwrap();
        assert(before =~= rest@.push(x));
        let mut j: usize = 0;
        while j < out.len() && !entry_lt_exec(&x, &out[j])
            invariant
                j <= out.len(),
                forall|k: int| 0 <= k < j ==> !entry_lt(x, #[trigger] out@[k]),
            decreases out.len() - j,
        {
            j += 1;
        }
        let ghost old_out = out@;
        proof {
            assert forall|k: int| j <= k < old_out.len() implies !entry_lt(#[trigger] old_out[k], x) by {
                lemma_entry_lt_order(old_out[k], x, old_out[j as int]);
                if k > j {
                    assert(!entry_lt(old_out[k], old_out[j as int]));
                }
            }
        }
        out.insert(j, x);
        assert(out@ == old_out.insert(j as int, x));
        assert forall|a: int, b: int| 0 <= a < b < out@.len() implies !entry_lt(
            #[trigger] out@[b],
            #[trigger] out@[a],
        ) by {
            if b < j {
                assert(out@[a] == old_out[a] && out@[b] == old_out[b]);
            } else if b == j {
                assert(out@[a] == old_out[a]);
            } else if a < j {
                assert(out@[a] == old_out[a] && out@[b] == old_out[b - 1]);
                lemma_entry_lt_order(old_out[b - 1], x, old_out[a]);
            } else if a == j {
                assert(out@[b] == old_out[b - 1]);
            } else {
                assert(out@[a] == old_out[a - 1] && out@[b] == old_out[b - 1]);
            }
        }
        proof {
            vstd::seq_lib::to_multiset_insert(old_out, j as int, x);
            vstd::seq_lib::to_multiset_build(rest@, x);
        }
        assert(out@.to_multiset() == old_out.to_multiset().insert(x));
        assert(before.to_multiset() == rest@.to_multiset().insert(x));
        assert(out@.to_multiset().add(rest@.to_multiset()) =~= old_out.to_multiset().add(
            before.to_multiset(),
        ));
    }
    assert(rest@ =~= Seq::<ReminderEntry>::empty());
    assert(rest@.to_multiset() =~= vstd::multiset::Multiset::empty()) by {
        broadcast use vstd::seq_lib::to_multiset_len;
        assert(rest@.to_multiset().len() == 0);
    }
    assert(out@.to_multiset().add(rest@.to_multiset()) =~= out@.to_multiset());
    out
}

} // verus!
