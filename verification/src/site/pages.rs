//! The state of a page, and which page a request is for.

use crate::data::models::{Timestamp, User};
use crate::site::l18n::Locale;
use crate::site::params::{kept_params, PageQuery};
use crate::text::{
    compare_text, lemma_text_rank_same, lowercase, lowercased, split, split_text, Rank,
};
use vstd::prelude::*;

verus! {

/// What a page knows of the request that it answers.
pub struct PageState {
    pub locale: Locale,
    pub path: String,
    pub query: PageQuery,
    /// When the page was made.
    pub gen_date_time: Timestamp,
    pub user: Option<User>,
}

/// The parameters of a link to `path` from a page at `own_path` that was
/// asked for with `query`: where the link leads to the page itself, the
/// parameters of the query whose key is not among those that `ignore` lists
/// between ampersands; else none.
pub open spec fn page_params(
    own_path: Seq<char>,
    query: Seq<(Seq<char>, Seq<char>)>,
    path: Seq<char>,
    ignore: Seq<char>,
) -> Seq<(Seq<char>, Seq<char>)> {
    if own_path == path {
        kept_params(query, split_text(ignore, '&'), query.len())
    } else {
        Seq::empty()
    }
}

/// The first `n` parameters of `params` as they stand in an address: a
/// question mark before the first, an ampersand before each other.
pub open spec fn address_query(params: Seq<(Seq<char>, Seq<char>)>, n: nat) -> Seq<char>
    decreases n,
{
    if n == 0 || n > params.len() {
        Seq::empty()
    } else if n == 1 {
        "?"@ + params[0].0 + "="@ + params[0].1
    } else {
        address_query(params, (n - 1) as nat) + "&"@ + params[n - 1].0 + "="@ + params[n - 1].1
    }
}

impl PageState {
    /// The state of a page made at `now` for a request to `path` in
    /// `locale` with `query`, sent by `user`.
    pub fn new(locale: Locale, path: String, query: PageQuery, now: Timestamp, user: Option<User>)
        -> (r: PageState)
        ensures
            r.locale == locale,
            r.path == path,
            r.query == query,
            r.gen_date_time == now,
            r.user == user,
    {
        PageState { locale, path, query, gen_date_time: now, user }
    }

    /// The parameters of a link to `path`.
    pub fn params_for(&self, path: &str, ignore: &str) -> (r: PageQuery)
        ensures
            r@ == page_params(self.path@, self.query@, path@, ignore@),
    {
        proof {
            lemma_text_rank_same(self.path@, path@);
        }
        match compare_text(self.path.as_str(), path) {
            Rank::Same => {
                let ignored = split(ignore, '&');
                self.query.without(&ignored)
            },
            _ => PageQuery::new(),
        }
    }

    /// The parameters of a link to the page itself.
    pub fn params_current(&self, ignore: &str) -> (r: PageQuery)
        ensures
            r@ == page_params(self.path@, self.query@, self.path@, ignore@),
    {
        self.params_for(self.path.as_str(), ignore)
    }

    /// The query of a link to `path` as it stands in an address.
    pub fn page_query_for(&self, path: &str, ignore: &str) -> (r: String)
        ensures
            r@ == address_query(
                page_params(self.path@, self.query@, path@, ignore@),
                page_params(self.path@, self.query@, path@, ignore@).len(),
            ),
    {
        let params = self.params_for(path, ignore);
        let mut s = String::new();
        let mut i: usize = 0;
        assert(s@ =~= address_query(params@, 0));
        while i < params.len()
            invariant
                i <= params@.len(),
                s@ == address_query(params@, i as nat),
            decreases params@.len() - i,
        {
            if i == 0 {
                s.append("?");
            } else {
                s.append("&");
            }
            s.append(params.key(i));
            s.append("=");
            s.append(params.value(i));
            assert(s@ =~= address_query(params@, (i + 1) as nat));
            i = i + 1;
        }
        s
    }

    /// The class of the navigation button that leads to `path`: `selected`
    /// where the page is at `path`, `unselected` where it is not.
    pub fn class_nav_button_for(&self, path: &str) -> (r: &'static str)
        ensures
            r@ == (if self.path@ == path@ {
                "selected"@
            } else {
                "unselected"@
            }),
    {
        proof {
            lemma_text_rank_same(self.path@, path@);
        }
        match compare_text(self.path.as_str(), path) {
            Rank::Same => "selected",
            _ => "unselected",
        }
    }
}

/// The pages that a request can be for.
#[derive(Clone, Copy, Debug, PartialEq, Eq, Structural)]
pub enum Route {
    /// The ranked news, served at the root.
    Front,
    /// The ranked news, served at `/news`.
    News,
    Search,
    Item,
    /// A static page, by its endpoint.
    Static,
}

/// The page for a request to the resource that reads `name` in lowercase.
pub open spec fn routed(name: Seq<char>) -> Route {
    if name == ""@ || name == "index"@ {
        Route::Front
    } else if name == "news"@ {
        Route::News
    } else if name == "search"@ {
        Route::Search
    } else if name == "item"@ {
        Route::Item
    } else {
        Route::Static
    }
}

/// The path under which the page of `route` goes; a static page goes under
/// its endpoint, after a slash.
pub open spec fn route_path(route: Route, name: Seq<char>) -> Seq<char> {
    match route {
        Route::Front => "/"@,
        Route::News => "/news"@,
        Route::Search => "/search"@,
        Route::Item => "/item"@,
        Route::Static => "/"@ + name,
    }
}

/// Decides which page a request to the resource `resource` is for, whatever
/// its letter case, and the path under which that page goes.
pub fn serve_page(resource: &str) -> (r: (Route, String))
    ensures
        r.0 == routed(lowercased(resource@)),
        r.1@ == route_path(routed(lowercased(resource@)), lowercased(resource@)),
{
    let name = lowercase(resource);
    route(name.as_str())
}

/// Decides which page a request to the resource that reads `name` in
/// lowercase is for, and the path under which that page goes.
pub fn route(name: &str) -> (r: (Route, String))
    ensures
        r.0 == routed(name@),
        r.1@ == route_path(routed(name@), name@),
{
    proof {
        lemma_text_rank_same(name@, ""@);
        lemma_text_rank_same(name@, "index"@);
        lemma_text_rank_same(name@, "news"@);
        lemma_text_rank_same(name@, "search"@);
        lemma_text_rank_same(name@, "item"@);
    }
    match compare_text(name, "") {
        Rank::Same => {
            return (Route::Front, "/".to_owned());
        },
        _ => {},
    }
    match compare_text(name, "index") {
        Rank::Same => {
            return (Route::Front, "/".to_owned());
        },
        _ => {},
    }
    match compare_text(name, "news") {
        Rank::Same => {
            return (Route::News, "/news".to_owned());
        },
        _ => {},
    }
    match compare_text(name, "search") {
        Rank::Same => {
            return (Route::Search, "/search".to_owned());
        },
        _ => {},
    }
    match compare_text(name, "item") {
        Rank::Same => {
            return (Route::Item, "/item".to_owned());
        },
        _ => {},
    }
    let mut path = "/".to_owned();
    path.append(name);
    (Route::Static, path)
}

} // verus!
