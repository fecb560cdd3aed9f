//! The languages the bot speaks.
use vstd::prelude::*;

use crate::text::str_eq;

verus! {

#[derive(Clone, Copy, Debug, PartialEq, Eq, Structural)]
pub enum Language {
    English,
    Dutch,
    Russian,
}

pub const DEFAULT_LANGUAGE: Language = Language::English;

impl Language {
    pub open spec fn spec_code(self) -> Seq<char> {
        match self {
            Language::English => "en"@,
            Language::Dutch => "nl"@,
            Language::Russian => "ru"@,
        }
    }

    pub open spec fn spec_name(self) -> Seq<char> {
        match self {
            Language::English => "English"@,
            Language::Dutch => "Nederlands"@,
            Language::Russian => "Русский"@,
        }
    }

    /// The language whose code is `code`, if any.
    pub open spec fn spec_from_code(code: Seq<char>) -> Option<Language> {
        if code == "en"@ {
            Some(Language::English)
        } else if code == "nl"@ {
            Some(Language::Dutch)
        } else if code == "ru"@ {
            Some(Language::Russian)
        } else {
            None
        }
    }

    /// The locale code of the language.
    pub fn code(self) -> (r: &'static str)
        ensures
            r@ == self.spec_code(),
    {
        match self {
            Language::English => "en",
            Language::Dutch => "nl",
            Language::Russian => "ru",
        }
    }

    /// The name of the language, in that language.
    pub fn name(self) -> (r: &'static str)
        ensures
            r@ == self.spec_name(),
    {
        match self {
            Language::English => "English",
            Language::Dutch => "Nederlands",
            Language::Russian => "Русский",
        }
    }

    pub fn from_code(code: &str) -> (r: Option<Language>)
        ensures
            r == Language::spec_from_code(code@),
    {
        if str_eq(code, "en") {
            Some(Language::English)
        } else if str_eq(code, "nl") {
            Some(Language::Dutch)
        } else if str_eq(code, "ru") {
            Some(Language::Russian)
        } else {
            None
        }
    }
}

impl Default for Language {
    fn default() -> (r: Language)
        ensures
            r == DEFAULT_LANGUAGE,
    {
        DEFAULT_LANGUAGE
    }
}

/// The languages offered to choose from, in the order they are shown.
pub fn languages() -> (r: Vec<Language>)
    ensures
        r@ == seq![Language::English, Language::Dutch, Language::Russian],
{
    vec![Language::English, Language::Dutch, Language::Russian]
}

/// The language of a user whose stored language code is `stored`:
/// the language with that code, or the default where there is none or it is unknown.
pub fn user_language_from_code(stored: Option<&str>) -> (r: Language)
    ensures
        r == match stored {
            Some(code) => match Language::spec_from_code(code@) {
                Some(l) => l,
                None => DEFAULT_LANGUAGE,
            },
            None => DEFAULT_LANGUAGE,
        },
{
    match stored {
        Some(code) => match Language::from_code(code) {
            Some(l) => l,
            None => DEFAULT_LANGUAGE,
        },
        None => DEFAULT_LANGUAGE,
    }
}

/// A language's code reads back as that language.
pub proof fn law_language_code_roundtrip(lang: Language)
    ensures
        Language::spec_from_code(lang.spec_code()) == Some(lang),
{
    reveal_strlit("en");
    reveal_strlit("nl");
    reveal_strlit("ru");
    assert("en"@ != "nl"@ && "en"@ != "ru"@ && "nl"@ != "ru"@) by {
        assert("en"@[0] != "nl"@[0]);
        assert("en"@[0] != "ru"@[0]);
        assert("nl"@[0] != "ru"@[0]);
    }
}

} // verus!
