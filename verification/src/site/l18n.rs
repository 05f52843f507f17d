//! The locales that the site is served in.

use crate::text::{compare_text, lemma_text_rank_same, lowercase, lowercased, trim, trimmed, Rank};
use vstd::prelude::*;

verus! {

/// A locale of the site.
#[derive(Clone, Copy, Debug, PartialEq, Eq, Structural)]
pub enum Locale {
    En,
    Nl,
    Es,
}

/// Text that names no locale of the site.
#[derive(Clone, Copy, Debug, PartialEq, Eq, Structural)]
pub struct UnknownLocale {}

/// The locale that is served where none is asked for.
pub open spec fn default_locale() -> Locale {
    Locale::En
}

/// The locale with the key `key`.
pub open spec fn locale_of_key(key: Seq<char>) -> Option<Locale> {
    if key == "en"@ {
        Some(Locale::En)
    } else if key == "nl"@ {
        Some(Locale::Nl)
    } else if key == "es"@ {
        Some(Locale::Es)
    } else {
        None
    }
}

/// The locale that `text` names, whatever its letter case and the white
/// space around it.
pub open spec fn locale_named(text: Seq<char>) -> Option<Locale> {
    locale_of_key(trimmed(lowercased(text)))
}

impl Locale {
    /// The locale that `text` names, if it names one.
    pub fn try_from(text: &str) -> (r: Result<Locale, UnknownLocale>)
        ensures
            match r {
                Ok(locale) => locale_named(text@) == Some(locale),
                Err(_) => locale_named(text@) is None,
            },
    {
        let lower = lowercase(text);
        Locale::from_key(trim(lower.as_str()))
    }

    /// The locale with the key `key`, if there is one.
    pub fn from_key(key: &str) -> (r: Result<Locale, UnknownLocale>)
        ensures
            match r {
                Ok(locale) => locale_of_key(key@) == Some(locale),
                Err(_) => locale_of_key(key@) is None,
            },
    {
        proof {
            lemma_text_rank_same(key@, "en"@);
            lemma_text_rank_same(key@, "nl"@);
            lemma_text_rank_same(key@, "es"@);
        }
        match compare_text(key, "en") {
            Rank::Same => {
                return Ok(Locale::En);
            },
            _ => {},
        }
        match compare_text(key, "nl") {
            Rank::Same => {
                return Ok(Locale::Nl);
            },
            _ => {},
        }
        match compare_text(key, "es") {
            Rank::Same => Ok(Locale::Es),
            _ => Err(UnknownLocale {  }),
        }
    }

    /// The locale that `text` names, or the default where it names none.
    pub fn from(text: &str) -> (r: Locale)
        ensures
            r == match locale_named(text@) {
                Some(locale) => locale,
                None => default_locale(),
            },
    {
        match Locale::try_from(text) {
            Ok(locale) => locale,
            Err(_) => Locale::En,
        }
    }

    /// The name of this locale.
    pub fn as_str(&self) -> (r: &'static str)
        ensures
            r@ == locale_name(*self),
    {
        match self {
            Locale::En => "en",
            Locale::Nl => "nl",
            Locale::Es => "es",
        }
    }
}

/// The name of `locale`.
pub open spec fn locale_name(locale: Locale) -> Seq<char> {
    match locale {
        Locale::En => "en"@,
        Locale::Nl => "nl"@,
        Locale::Es => "es"@,
    }
}

impl Default for Locale {
    fn default() -> (r: Locale)
        ensures
            r == default_locale(),
    {
        Locale::En
    }
}

} // verus!
