//! Reminder scheduling: the reminder grammar, recurrence computation,
//! validation of parsed reminders and the callback-data protocol of the bot.
use vstd::prelude::*;

pub mod text;
pub mod callbacks;
pub mod lang;
pub mod calendar;
pub mod zone;
pub mod collections;
pub mod grammar;
pub mod date;
pub mod serializers;
pub mod parsers;
pub mod syntax;
pub mod controller;
pub mod handlers;
pub mod generic_reminder;
pub mod markup;
pub mod tg;
pub mod bot;

verus! {
} // verus!
