//! The inline keyboards the bot sends: which buttons, in which rows, carrying which data.
use vstd::prelude::*;

use crate::callbacks::{
    done_occurrence, edit_mode_description, edit_mode_time_pattern, reminder_alter,
    reminder_page, select_timezone_page, select_timezone_tz, set_language,
    settings_change_language, spec_done_occurrence, spec_edit_mode_description,
    spec_edit_mode_time_pattern, spec_reminder_alter, spec_reminder_page,
    spec_select_timezone_page, spec_select_timezone_tz, spec_set_language, ReminderListKind,
    SETTINGS_CHANGE_LANGUAGE,
};
use crate::lang::Language;

verus! {

/// A button: its label and the data it sends back when pressed.
#[derive(Debug)]
pub struct Button {
    pub text: String,
    pub data: String,
}

/// An inline keyboard: rows of buttons.
#[derive(Debug)]
pub struct Keyboard {
    pub rows: Vec<Vec<Button>>,
}

/// A reminder in a list to pick from: its label, its kind and its id.
#[derive(Debug)]
pub struct ReminderMarkupEntry {
    pub text: String,
    pub rem_type: &'static str,
    pub rem_id: i64,
}

pub open spec fn button_view(b: Button) -> (Seq<char>, Seq<char>) {
    (b.text@, b.data@)
}

pub open spec fn row_view(row: Vec<Button>) -> Seq<(Seq<char>, Seq<char>)> {
    row@.map_values(|b: Button| button_view(b))
}

/// The keyboard as rows of (label, data) pairs.
pub open spec fn keyboard_view(k: Keyboard) -> Seq<Seq<(Seq<char>, Seq<char>)>> {
    k.rows@.map_values(|row: Vec<Button>| row_view(row))
}

pub open spec fn left_arrow() -> Seq<char> {
    "⬅️"@
}

pub open spec fn right_arrow() -> Seq<char> {
    "➡️"@
}

/// The row under a paged list: back to the previous page where there is one, on to the
/// next where this page has items.
pub open spec fn move_row(num: usize, has_items: bool, page: spec_fn(usize) -> Seq<char>) -> Seq<
    (Seq<char>, Seq<char>),
> {
    let back = if num > 0 {
        seq![(left_arrow(), page((num - 1) as usize))]
    } else {
        Seq::empty()
    };
    if has_items {
        back.push((right_arrow(), page((num + 1) as usize)))
    } else {
        back
    }
}

fn button(text: String, data: String) -> (r: Button)
    ensures
        button_view(r) == (text@, data@),
{
    Button { text, data }
}

fn one_button_keyboard(text: String, data: String) -> (r: Keyboard)
    ensures
        keyboard_view(r) == seq![seq![(text@, data@)]],
{
    let row = vec![button(text, data)];
    let rows = vec![row];
    let r = Keyboard { rows };
    assert(row_view(r.rows@[0]) =~= seq![(text@, data@)]);
    assert(keyboard_view(r) =~= seq![seq![(text@, data@)]]);
    r
}

/// The button under a nagging reminder that marks it done; `label` is its text in the
/// user's language.
pub fn done_markup(label: &str, occ_id: i64) -> (r: Keyboard)
    ensures
        keyboard_view(r) == seq![seq![(label@, spec_done_occurrence(occ_id))]],
{
    one_button_keyboard(String::from_str(label), done_occurrence(occ_id))
}

/// The buttons that choose what to edit of a reminder.
pub fn edit_mode_markup(time_pattern_label: &str, description_label: &str, rem_id: i64) -> (r:
    Keyboard)
    ensures
        keyboard_view(r) == seq![
            seq![
                (time_pattern_label@, spec_edit_mode_time_pattern(rem_id)),
                (description_label@, spec_edit_mode_description(rem_id)),
            ],
        ],
{
    let row = vec![
        button(String::from_str(time_pattern_label), edit_mode_time_pattern(rem_id)),
        button(String::from_str(description_label), edit_mode_description(rem_id)),
    ];
    let rows = vec![row];
    let r = Keyboard { rows };
    assert(row_view(r.rows@[0]) =~= seq![
        (time_pattern_label@, spec_edit_mode_time_pattern(rem_id)),
        (description_label@, spec_edit_mode_description(rem_id)),
    ]);
    assert(keyboard_view(r) =~= seq![
        seq![
            (time_pattern_label@, spec_edit_mode_time_pattern(rem_id)),
            (description_label@, spec_edit_mode_description(rem_id)),
        ],
    ]);
    r
}

/// The button that opens the language menu.
pub fn settings_markup(label: &str) -> (r: Keyboard)
    ensures
        keyboard_view(r) == seq![seq![(label@, SETTINGS_CHANGE_LANGUAGE@)]],
{
    one_button_keyboard(String::from_str(label), settings_change_language())
}

/// One row: a button per language, with the language's name.
pub fn languages_markup(languages: &Vec<Language>) -> (r: Keyboard)
    ensures
        keyboard_view(r) == seq![
            languages@.map_values(|l: Language| (l.spec_name(), spec_set_language(l.spec_code()))),
        ],
{
    let ghost want = languages@.map_values(
        |l: Language| (l.spec_name(), spec_set_language(l.spec_code())),
    );
    let mut row: Vec<Button> = Vec::new();
    let mut i: usize = 0;
    while i < languages.len()
        invariant
            i <= languages@.len(),
            want == languages@.map_values(
                |l: Language| (l.spec_name(), spec_set_language(l.spec_code())),
            ),
            row_view(row) =~= want.subrange(0, i as int),
            row@.len() == i,
        decreases languages@.len() - i,
    {
        let lang = languages[i];
        let b = button(String::from_str(lang.name()), set_language(lang.code()));
        let ghost old_row = row@;
        let ghost bv = button_view(b);
        row.push(b);
        assert(row@ == old_row.push(b));
        assert(row_view(row) =~= row_view(row).subrange(0, i as int).push(bv));
        assert(row_view(row) =~= want.subrange(0, i + 1));
        i += 1;
    }
    assert(want.subrange(0, languages@.len() as int) =~= want);
    let rows = vec![row];
    let r = Keyboard { rows };
    assert(keyboard_view(r) =~= seq![want]);
    r
}

/// Rows of two timezone buttons (the last may hold one).
pub open spec fn timezone_rows(names: Seq<Seq<char>>) -> Seq<Seq<(Seq<char>, Seq<char>)>>
    decreases names.len(),
{
    if names.len() == 0 {
        Seq::empty()
    } else if names.len() == 1 {
        seq![seq![(names[0], spec_select_timezone_tz(names[0]))]]
    } else {
        seq![
            seq![
                (names[0], spec_select_timezone_tz(names[0])),
                (names[1], spec_select_timezone_tz(names[1])),
            ],
        ] + timezone_rows(names.skip(2))
    }
}

pub open spec fn names_view(names: Vec<String>) -> Seq<Seq<char>> {
    names@.map_values(|s: String| s@)
}

/// A page of the timezone menu: the page's timezones two by two, then the arrows; a
/// page past the last has none and no arrow onwards.
pub open spec fn spec_timezone_page_markup(num: usize, tz_names: Option<Seq<Seq<char>>>) -> Seq<
    Seq<(Seq<char>, Seq<char>)>,
> {
    match tz_names {
        Some(names) => timezone_rows(names).push(
            move_row(num, true, |n: usize| spec_select_timezone_page(n)),
        ),
        None => seq![move_row(num, false, |n: usize| spec_select_timezone_page(n))],
    }
}

fn move_buttons(num: usize, has_items: bool, kind: Option<ReminderListKind>) -> (r: Vec<Button>)
    requires
        has_items ==> num < usize::MAX,
    ensures
        row_view(r) == (match kind {
            None => move_row(num, has_items, |n: usize| spec_select_timezone_page(n)),
            Some(k) => move_row(num, has_items, |n: usize| spec_reminder_page(k, n)),
        }),
{
    let mut row: Vec<Button> = Vec::new();
    if num > 0 {
        let data = match kind {
            None => select_timezone_page(num - 1),
            Some(k) => reminder_page(k, num - 1),
        };
        row.push(button(String::from_str("⬅️"), data));
    }
    if has_items {
        let data = match kind {
            None => select_timezone_page(num + 1),
            Some(k) => reminder_page(k, num + 1),
        };
        row.push(button(String::from_str("➡️"), data));
    }
    assert(row_view(row) =~= (match kind {
        None => move_row(num, has_items, |n: usize| spec_select_timezone_page(n)),
        Some(k) => move_row(num, has_items, |n: usize| spec_reminder_page(k, n)),
    }));
    row
}

/// A page of the timezone menu; `tz_names` are the page's timezones, none past the last
/// page.
pub fn timezone_page_markup(num: usize, tz_names: Option<Vec<String>>) -> (r: Keyboard)
    requires
        tz_names is Some ==> num < usize::MAX,
    ensures
        keyboard_view(r) == spec_timezone_page_markup(
            num,
            match tz_names {
                Some(v) => Some(names_view(v)),
                None => None,
            },
        ),
{
    let mut rows: Vec<Vec<Button>> = Vec::new();
    let has_items = tz_names.is_some();
    if let Some(names) = tz_names {
        let ghost all = names_view(names);
        assert(all.skip(0) =~= all);
        let mut i: usize = 0;
        while i < names.len()
            invariant
                i <= names@.len(),
                all == names_view(names),
                all.len() == names@.len(),
                keyboard_view(Keyboard { rows }) + timezone_rows(all.skip(i as int)) == timezone_rows(all),
            decreases names@.len() - i,
        {
            let ghost old_rows = keyboard_view(Keyboard { rows });
            let mut row: Vec<Button> = Vec::new();
            let a = &names[i];
            row.push(button(a.clone(), select_timezone_tz(a.as_str())));
            assert(all[i as int] == a@);
            if i + 1 < names.len() {
                let b = &names[i + 1];
                assert(all[i + 1] == b@);
                row.push(button(b.clone(), select_timezone_tz(b.as_str())));
            }
            proof {
                let rest = all.skip(i as int);
                if i + 1 < names@.len() {
                    assert(rest.skip(2) =~= all.skip(i + 2));
                    assert(row_view(row) =~= seq![
                        (rest[0], spec_select_timezone_tz(rest[0])),
                        (rest[1], spec_select_timezone_tz(rest[1])),
                    ]);
                } else {
                    assert(all.skip(i + 1) =~= Seq::<Seq<char>>::empty());
                    assert(row_view(row) =~= seq![(rest[0], spec_select_timezone_tz(rest[0]))]);
                }
            }
            rows.push(row);
            proof {
                let rest = all.skip(i as int);
                assert(keyboard_view(Keyboard { rows }) =~= old_rows.push(row_view(row)));
                if i + 1 < names@.len() {
                    assert(timezone_rows(rest) == seq![row_view(row)] + timezone_rows(all.skip(i + 2)));
                } else {
                    assert(timezone_rows(rest) == seq![row_view(row)]);
                    assert(timezone_rows(all.skip(i + 1)) =~= Seq::<Seq<(Seq<char>, Seq<char>)>>::empty());
                }
            }
            i = if i + 1 < names.len() { i + 2 } else { i + 1 };
            proof {
                if i as int >= names@.len() {
                    assert(all.skip(i as int) =~= Seq::<Seq<char>>::empty());
                }
            }
        }
        assert(all.skip(i as int) =~= Seq::<Seq<char>>::empty());
    }
    let ghost before = keyboard_view(Keyboard { rows });
    let arrows = move_buttons(num, has_items, None);
    rows.push(arrows);
    let r = Keyboard { rows };
    assert(keyboard_view(r) =~= before.push(row_view(arrows)));
    r
}

/// A page of a list of reminders to pick from: a row per reminder, then the arrows.
pub open spec fn spec_reminders_page_markup(
    num: usize,
    kind: ReminderListKind,
    reminders: Option<Seq<(Seq<char>, Seq<char>, i64)>>,
) -> Seq<Seq<(Seq<char>, Seq<char>)>> {
    match reminders {
        Some(entries) => entries.map_values(
            |e: (Seq<char>, Seq<char>, i64)| seq![(e.0, spec_reminder_alter(kind, e.1, e.2))],
        ).push(move_row(num, true, |n: usize| spec_reminder_page(kind, n))),
        None => seq![move_row(num, false, |n: usize| spec_reminder_page(kind, n))],
    }
}

pub open spec fn entries_view(v: Vec<ReminderMarkupEntry>) -> Seq<(Seq<char>, Seq<char>, i64)> {
    v@.map_values(|e: ReminderMarkupEntry| (e.text@, e.rem_type@, e.rem_id))
}

/// A page of a list of reminders to delete, edit or pause; `reminders` are the page's
/// reminders, none past the last page.
pub fn reminders_page_markup(
    num: usize,
    callback_kind: ReminderListKind,
    reminders: Option<Vec<ReminderMarkupEntry>>,
) -> (r: Keyboard)
    requires
        reminders is Some ==> num < usize::MAX,
    ensures
        keyboard_view(r) == spec_reminders_page_markup(
            num,
            callback_kind,
            match reminders {
                Some(v) => Some(entries_view(v)),
                None => None,
            },
        ),
{
    let mut rows: Vec<Vec<Button>> = Vec::new();
    let has_items = reminders.is_some();
    if let Some(entries) = reminders {
        let ghost all = entries_view(entries);
        let ghost want = all.map_values(
            |e: (Seq<char>, Seq<char>, i64)| seq![(e.0, spec_reminder_alter(callback_kind, e.1, e.2))],
        );
        let mut i: usize = 0;
        while i < entries.len()
            invariant
                i <= entries@.len(),
                all == entries_view(entries),
                want == all.map_values(
                    |e: (Seq<char>, Seq<char>, i64)| seq![(e.0, spec_reminder_alter(callback_kind, e.1, e.2))],
                ),
                keyboard_view(Keyboard { rows }) =~= want.subrange(0, i as int),
                rows@.len() == i,
            decreases entries@.len() - i,
        {
            let e = &entries[i];
            let row = vec![button(e.text.clone(), reminder_alter(callback_kind, e.rem_type, e.rem_id))];
            assert(row_view(row) =~= want[i as int]);
            let ghost old_rows = rows@;
            let ghost rv = row_view(row);
            rows.push(row);
            assert(rows@ == old_rows.push(row));
            assert(keyboard_view(Keyboard { rows }) =~= keyboard_view(Keyboard { rows }).subrange(0, i as int).push(rv));
            assert(keyboard_view(Keyboard { rows }) =~= want.subrange(0, i + 1));
            i += 1;
        }
        assert(want.subrange(0, entries@.len() as int) =~= want);
    }
    let ghost before = keyboard_view(Keyboard { rows });
    let arrows = move_buttons(num, has_items, Some(callback_kind));
    rows.push(arrows);
    let r = Keyboard { rows };
    assert(keyboard_view(r) =~= before.push(row_view(arrows)));
    r
}

/// Which items the `num`-th page of `size` items holds, of `len`: from where to where;
/// none past the last page.
pub open spec fn spec_page_bounds(len: int, size: int, num: int) -> Option<(int, int)> {
    if size > 0 && num * size < len {
        Some((num * size, if len < (num + 1) * size { len } else { (num + 1) * size }))
    } else {
        None
    }
}

/// The bounds of a page, as `chunks(size).nth(num)` takes it.
pub fn page_bounds(len: usize, size: usize, num: usize) -> (r: Option<(usize, usize)>)
    ensures
        match r {
            Some((a, b)) => spec_page_bounds(len as int, size as int, num as int) == Some(
                (a as int, b as int),
            ) && a < b <= len,
            None => spec_page_bounds(len as int, size as int, num as int) is None,
        },
{
    if size == 0 || len == 0 {
        return None;
    }
    let last_page = (len - 1) / size;
    if num > last_page {
        assert(num * size >= len) by (nonlinear_arith)
            requires
                num > last_page,
                last_page == (len - 1) as int / size as int,
                size > 0,
                len > 0,
        ;
        return None;
    }
    assert(num * size <= (len - 1) as int) by (nonlinear_arith)
        requires
            num <= last_page,
            last_page == (len - 1) as int / size as int,
            size > 0,
            len > 0,
    ;
    let start = num * size;
    let end = if len - start < size {
        len
    } else {
        start + size
    };
    assert((num + 1) * size == num * size + size) by (nonlinear_arith);
    Some((start, end))
}

} // verus!
