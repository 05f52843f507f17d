//! Who asks, and in which locale they are answered.

use crate::data::models::{Timestamp, User, UserAuthentication, UserID, UserState};
use crate::site::l18n::{default_locale, locale_named, Locale};
use crate::text::{
    compare_text, decimal_text, lemma_text_rank_same, parse_u64, parsed_u64, pieces, push_decimal,
    split_any, trim, trimmed, Rank,
};
use vstd::prelude::*;

verus! {

/// What the headers of a request say.
pub struct Headers {
    locale: Option<Locale>,
}

/// A user by reference: who, and as of when their record was fetched.
pub struct UserReference {
    user_id: UserID,
    last_fetch_time: Timestamp,
}

/// Why the record of a user cannot be had.
#[derive(Clone, Copy, Debug, PartialEq, Eq, Structural)]
pub enum UserError {
    Unavailable,
}

/// What is known of the one who sent a request.
pub struct Session {
    headers: Headers,
    user_ref: Option<UserReference>,
}

/// The settings of the session; there are none.
#[derive(Clone, Copy, Default)]
pub struct SessionConfig {}

/// The name under which the user with `id` goes.
pub open spec fn user_name(id: UserID) -> Seq<char> {
    "User#"@ + decimal_text(id as nat)
}

/// The characters at which the value of an `Accept-Language` header is cut.
pub open spec fn language_separators() -> Seq<char> {
    seq![',', '-', '.', ';']
}

/// The locale that the language `language` of an `Accept-Language` header
/// asks for: the default for an asterisk, else the locale that it names.
pub open spec fn language_locale(language: Seq<char>) -> Option<Locale> {
    if language == "*"@ {
        Some(default_locale())
    } else {
        locale_named(language)
    }
}

/// The locale that one piece of an `Accept-Language` header asks for,
/// whatever the white space around it.
pub open spec fn piece_locale(piece: Seq<char>) -> Option<Locale> {
    language_locale(trimmed(piece))
}

/// Computes [`language_locale`].
pub fn locale_of_language(language: &str) -> (r: Option<Locale>)
    ensures
        r == language_locale(language@),
{
    proof {
        lemma_text_rank_same(language@, "*"@);
    }
    match compare_text(language, "*") {
        Rank::Same => Some(Locale::En),
        _ => match Locale::try_from(language) {
            Ok(locale) => Some(locale),
            Err(_) => None,
        },
    }
}

/// The locale that the first of `pieces`, from piece `from` on, asks for.
pub open spec fn first_locale(pieces: Seq<Seq<char>>, from: int) -> Option<Locale>
    decreases pieces.len() - from,
{
    if from < 0 || from >= pieces.len() {
        None
    } else {
        match piece_locale(pieces[from]) {
            Some(locale) => Some(locale),
            None => first_locale(pieces, from + 1),
        }
    }
}

/// The locale that an `Accept-Language` header asks for; a request without
/// the header asks for any, which is the default.
pub open spec fn accepted_locale(accept_language: Option<Seq<char>>) -> Option<Locale> {
    let value = match accept_language {
        Some(value) => value,
        None => "*"@,
    };
    first_locale(pieces(value, language_separators(), 0), 0)
}

impl Headers {
    /// The locale that the headers ask for.
    pub closed spec fn asked(&self) -> Option<Locale> {
        self.locale
    }

    /// Reads the headers of a request from the value of its
    /// `Accept-Language` header, if it has one.
    pub fn from_request(accept_language: Option<&str>) -> (r: Headers)
        ensures
            r.asked() == accepted_locale(
                match accept_language {
                    Some(value) => Some(value@),
                    None => None,
                },
            ),
    {
        let value = match accept_language {
            Some(value) => value,
            None => "*",
        };
        let mut separators: Vec<char> = Vec::new();
        separators.push(',');
        separators.push('-');
        separators.push('.');
        separators.push(';');
        assert(separators@ =~= language_separators());
        let languages = split_any(value, &separators);
        let ghost lv = languages.deep_view();
        let ghost goal = accepted_locale(
            match accept_language {
                Some(value) => Some(value@),
                None => None,
            },
        );
        assert(goal == first_locale(lv, 0));
        let mut i: usize = 0;
        while i < languages.len()
            invariant
                i <= languages.len(),
                lv == languages.deep_view(),
                goal == accepted_locale(
                    match accept_language {
                        Some(value) => Some(value@),
                        None => None,
                    },
                ),
                goal == first_locale(lv, i as int),
            decreases languages.len() - i,
        {
            assert(lv[i as int] == languages@[i as int]@);
            match locale_of_language(trim(languages[i].as_str())) {
                Some(locale) => {
                    return Headers { locale: Some(locale) };
                },
                None => {},
            }
            i = i + 1;
        }
        Headers { locale: None }
    }
}

impl UserReference {
    /// The user referred to.
    pub closed spec fn id(&self) -> UserID {
        self.user_id
    }

    /// As of when the user's record counts.
    pub closed spec fn fetched(&self) -> Timestamp {
        self.last_fetch_time
    }

    /// A reference to the user `user_id`, whose record was never fetched.
    pub fn new(user_id: UserID) -> (r: UserReference)
        ensures
            r.id() == user_id,
            r.fetched() == 0,
    {
        UserReference { user_id, last_fetch_time: 0 }
    }

    /// The record of the user: a public member under the name
    /// [`user_name`], with nothing else set.
    pub fn user(&self) -> (r: Result<User, UserError>)
        ensures
            r is Ok,
            r->Ok_0.id == self.id(),
            r->Ok_0.state == UserState::Public,
            r->Ok_0.username is Some && r->Ok_0.username->0@ == user_name(self.id()),
            r->Ok_0.name is None,
            r->Ok_0.locale is None,
            r->Ok_0.location is None,
            r->Ok_0.create_time == self.fetched(),
            r->Ok_0.last_login_time == self.fetched(),
            r->Ok_0.karma == 42,
            r->Ok_0.about is None,
            r->Ok_0.items@.len() == 0,
            r->Ok_0.ips@.len() == 0,
            r->Ok_0.authentications@.len() == 0,
            r->Ok_0.preferences is None,
    {
        let mut username = "User#".to_owned();
        push_decimal(&mut username, self.user_id);
        let authentications: Vec<Box<dyn UserAuthentication>> = Vec::new();
        Ok(
            User {
                id: self.user_id,
                state: UserState::Public,
                username: Some(username),
                name: None,
                locale: None,
                location: None,
                create_time: self.last_fetch_time,
                last_login_time: self.last_fetch_time,
                karma: 42,
                about: None,
                items: Vec::new(),
                ips: Vec::new(),
                authentications,
                preferences: None,
            },
        )
    }
}

impl Session {
    /// The locale that the headers ask for.
    pub closed spec fn header_locale(&self) -> Option<Locale> {
        self.headers.locale
    }

    /// The user that the request names.
    pub closed spec fn user_id(&self) -> Option<UserID> {
        match self.user_ref {
            Some(user_ref) => Some(user_ref.user_id),
            None => None,
        }
    }

    /// As of when the record of that user counts.
    pub closed spec fn user_fetched(&self) -> Timestamp {
        match self.user_ref {
            Some(user_ref) => user_ref.last_fetch_time,
            None => 0,
        }
    }

    /// The session of a request whose headers ask for `locale` and which
    /// names the user `user_id`, whose record was never fetched.
    pub fn new(locale: Option<Locale>, user_id: Option<UserID>) -> (r: Session)
        ensures
            r.header_locale() == locale,
            r.user_id() == user_id,
            r.user_fetched() == 0,
    {
        let user_ref = match user_id {
            Some(id) => Some(UserReference::new(id)),
            None => None,
        };
        Session { headers: Headers { locale }, user_ref }
    }

    /// The session of a request with the `Accept-Language` header
    /// `accept_language` and the query parameter `id`, where it has them: it
    /// names a user where `id` spells a number.
    pub fn from_request(accept_language: Option<&str>, id: Option<&str>) -> (r: Session)
        ensures
            r.header_locale() == accepted_locale(
                match accept_language {
                    Some(value) => Some(value@),
                    None => None,
                },
            ),
            r.user_id() == match id {
                Some(id) => parsed_u64(id@),
                None => None,
            },
            r.user_fetched() == 0,
    {
        let headers = Headers::from_request(accept_language);
        let user_ref = match id {
            Some(id) => match parse_u64(id) {
                Some(user_id) => Some(UserReference::new(user_id)),
                None => None,
            },
            None => None,
        };
        Session { headers, user_ref }
    }

    /// The locale to answer in: the one that the user has set, if it names a
    /// locale of the site, else the one that the headers ask for, else the
    /// default. No user record holds a locale yet, so the headers decide.
    pub fn locale(&self) -> (r: Locale)
        ensures
            r == match self.header_locale() {
                Some(locale) => locale,
                None => default_locale(),
            },
    {
        match self.user() {
            Some(user) => match &user.locale {
                Some(name) => match Locale::try_from(name.as_str()) {
                    Ok(locale) => {
                        return locale;
                    },
                    Err(_) => {},
                },
                None => {},
            },
            None => {},
        }
        match self.headers.locale {
            Some(locale) => locale,
            None => Locale::En,
        }
    }

    /// The record of the user that the request names, if it names one and
    /// the record can be had.
    pub fn user(&self) -> (r: Option<User>)
        ensures
            r is Some <==> self.user_id() is Some,
            r is Some ==> r->0.id == self.user_id()->0 && r->0.locale is None && r->0.state
                == UserState::Public && r->0.username is Some && r->0.username->0@ == user_name(
                r->0.id,
            ) && r->0.karma == 42 && r->0.create_time == self.user_fetched()
                && r->0.last_login_time == self.user_fetched(),
    {
        match &self.user_ref {
            None => None,
            Some(user_ref) => match user_ref.user() {
                Ok(user) => Some(user),
                Err(_) => None,
            },
        }
    }
}

} // verus!
