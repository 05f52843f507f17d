//! What the page templates are filled with.

use crate::markdown::{markdown_html, render_markdown};
use crate::site::params::{value_of, with_param, PageQuery};
use crate::site::state::SiteInfo;
use crate::text::{compare_text, lemma_text_rank_same, Rank};
use vstd::prelude::*;

verus! {

/// The text that stands under `key` in `texts`, or the key itself where
/// nothing stands under it.
pub open spec fn translated(texts: Seq<(Seq<char>, Seq<char>)>, key: Seq<char>) -> Seq<char> {
    match value_of(texts, key) {
        Some(text) => text,
        None => key,
    }
}

/// Computes [`translated`].
pub fn txt(texts: &PageQuery, key: &str) -> (r: String)
    ensures
        r@ == translated(texts@, key@),
{
    match texts.get(key) {
        Some(text) => text.to_owned(),
        None => key.to_owned(),
    }
}

/// The text under `key`, read as Markdown and rendered to HTML.
pub fn md(texts: &PageQuery, key: &str) -> (r: String)
    ensures
        r@ == markdown_html(translated(texts@, key@)),
{
    let source = txt(texts, key);
    render_markdown(source.as_str())
}

/// The texts of the navigation.
pub struct NavLocales {
    pub header: NavHeaderLocales,
    pub footer: NavFooterLocales,
}

/// The texts of the header of the navigation.
pub struct NavHeaderLocales {
    pub news: String,
    pub past: String,
    pub comments: String,
    pub ask: String,
    pub show: String,
    pub events: String,
    pub submit: String,
    pub login: String,
    pub locale: String,
    pub select: String,
}

/// The texts of the footer of the navigation.
pub struct NavFooterLocales {
    pub guidelines: String,
    pub faq: String,
    pub api: String,
    pub security: String,
    pub legal: String,
    pub contact: String,
    pub search: String,
    pub build_info: String,
}

/// What every page shows of the site, in the locale of the request.
pub struct SiteLocales {
    pub name: String,
    pub repository: String,
    pub locale: String,
    pub path: String,
    pub query: Option<PageQuery>,
    /// The name of each locale of the site, by locale.
    pub locales: PageQuery,
    pub nav: NavLocales,
}

/// The names of the locales of the site as `texts` gives them, by locale.
pub open spec fn locale_names(texts: Seq<(Seq<char>, Seq<char>)>) -> Seq<(Seq<char>, Seq<char>)> {
    with_param(
        with_param(
            with_param(Seq::empty(), "en"@, translated(texts, "site.locales.en"@)),
            "nl"@,
            translated(texts, "site.locales.nl"@),
        ),
        "es"@,
        translated(texts, "site.locales.es"@),
    )
}

/// `base` with the first `n` parameters of `query` set in it, one after
/// another.
pub open spec fn merged_params(
    base: Seq<(Seq<char>, Seq<char>)>,
    query: Seq<(Seq<char>, Seq<char>)>,
    n: nat,
) -> Seq<(Seq<char>, Seq<char>)>
    decreases n,
{
    if n == 0 || n > query.len() {
        base
    } else {
        with_param(merged_params(base, query, (n - 1) as nat), query[n - 1].0, query[n - 1].1)
    }
}

/// The parameters of a link to `path` from a page at `own_path` in `locale`
/// that was asked for with `query`: the locale under `loc`, and, where the
/// link leads to the page itself, the parameters of the query, which win.
pub open spec fn link_params(
    locale: Seq<char>,
    own_path: Seq<char>,
    query: Option<Seq<(Seq<char>, Seq<char>)>>,
    path: Seq<char>,
) -> Seq<(Seq<char>, Seq<char>)> {
    let base = with_param(Seq::empty(), "loc"@, locale);
    match query {
        Some(query) => if own_path == path {
            merged_params(base, query, query.len())
        } else {
            base
        },
        None => base,
    }
}

/// The parameters of the page itself: the locale under `loc` where it is
/// asked for, and the parameters of the query, which win.
pub open spec fn current_params(
    locale: Seq<char>,
    query: Option<Seq<(Seq<char>, Seq<char>)>>,
    with_locale: bool,
) -> Seq<(Seq<char>, Seq<char>)> {
    let base = if with_locale {
        with_param(Seq::empty(), "loc"@, locale)
    } else {
        Seq::empty()
    };
    match query {
        Some(query) => merged_params(base, query, query.len()),
        None => base,
    }
}

/// The first `n` parameters of `params` as they stand in an address: each
/// as a question mark, the key, an equals sign and the value.
pub open spec fn query_text(params: Seq<(Seq<char>, Seq<char>)>, n: nat) -> Seq<char>
    decreases n,
{
    if n == 0 || n > params.len() {
        Seq::empty()
    } else {
        query_text(params, (n - 1) as nat) + "?"@ + params[n - 1].0 + "="@ + params[n - 1].1
    }
}

/// Sets the parameters of `query` in `params`, one after another.
fn merge_params(params: &mut PageQuery, query: &PageQuery)
    ensures
        final(params)@ == merged_params(old(params)@, query@, query@.len()),
{
    let mut i: usize = 0;
    while i < query.len()
        invariant
            i <= query@.len(),
            params@ == merged_params(old(params)@, query@, i as nat),
        decreases query@.len() - i,
    {
        params.insert(query.key(i).to_owned(), query.value(i).to_owned());
        i = i + 1;
    }
}

/// The view of an optional query.
pub open spec fn query_view(query: Option<PageQuery>) -> Option<Seq<(Seq<char>, Seq<char>)>> {
    match query {
        Some(query) => Some(query@),
        None => None,
    }
}

impl SiteLocales {
    /// What a page at `path`, asked for in `locale` with `query`, shows of
    /// the site. `texts` holds the texts of the locale by their keys.
    pub fn new(locale: &str, path: &str, query: Option<PageQuery>, texts: &PageQuery) -> (r:
        SiteLocales)
        ensures
            r.name@ == translated(texts@, "site.name"@),
            r.repository@ == "https://github.com/plabayo/news"@,
            r.locale@ == locale@,
            r.path@ == path@,
            r.query == query,
            r.locales@ == locale_names(texts@),
            r.nav.header.news@ == translated(texts@, "site.nav.header.news"@),
            r.nav.header.past@ == translated(texts@, "site.nav.header.past"@),
            r.nav.header.comments@ == translated(texts@, "site.nav.header.comments"@),
            r.nav.header.ask@ == translated(texts@, "site.nav.header.ask"@),
            r.nav.header.show@ == translated(texts@, "site.nav.header.show"@),
            r.nav.header.events@ == translated(texts@, "site.nav.header.events"@),
            r.nav.header.submit@ == translated(texts@, "site.nav.header.submit"@),
            r.nav.header.login@ == translated(texts@, "site.nav.header.login"@),
            r.nav.header.locale@ == translated(texts@, "site.nav.header.locale"@),
            r.nav.header.select@ == translated(texts@, "site.nav.header.select"@),
            r.nav.footer.guidelines@ == translated(texts@, "site.nav.footer.guidelines"@),
            r.nav.footer.faq@ == translated(texts@, "site.nav.footer.faq"@),
            r.nav.footer.api@ == translated(texts@, "site.nav.footer.api"@),
            r.nav.footer.security@ == translated(texts@, "site.nav.footer.security"@),
            r.nav.footer.legal@ == translated(texts@, "site.nav.footer.legal"@),
            r.nav.footer.contact@ == translated(texts@, "site.nav.footer.contact"@),
            r.nav.footer.search@ == translated(texts@, "site.nav.footer.search"@),
            r.nav.footer.build_info@ == translated(texts@, "site.nav.footer.build_info"@),
    {
        let mut locales = PageQuery::new();
        locales.insert("en".to_owned(), txt(texts, "site.locales.en"));
        locales.insert("nl".to_owned(), txt(texts, "site.locales.nl"));
        locales.insert("es".to_owned(), txt(texts, "site.locales.es"));
        SiteLocales {
            name: txt(texts, "site.name"),
            repository: "https://github.com/plabayo/news".to_owned(),
            locale: locale.to_owned(),
            locales,
            path: path.to_owned(),
            query,
            nav: NavLocales {
                header: NavHeaderLocales {
                    news: txt(texts, "site.nav.header.news"),
                    past: txt(texts, "site.nav.header.past"),
                    comments: txt(texts, "site.nav.header.comments"),
                    ask: txt(texts, "site.nav.header.ask"),
                    show: txt(texts, "site.nav.header.show"),
                    events: txt(texts, "site.nav.header.events"),
                    submit: txt(texts, "site.nav.header.submit"),
                    login: txt(texts, "site.nav.header.login"),
                    locale: txt(texts, "site.nav.header.locale"),
                    select: txt(texts, "site.nav.header.select"),
                },
                footer: NavFooterLocales {
                    guidelines: txt(texts, "site.nav.footer.guidelines"),
                    faq: txt(texts, "site.nav.footer.faq"),
                    api: txt(texts, "site.nav.footer.api"),
                    security: txt(texts, "site.nav.footer.security"),
                    legal: txt(texts, "site.nav.footer.legal"),
                    contact: txt(texts, "site.nav.footer.contact"),
                    search: txt(texts, "site.nav.footer.search"),
                    build_info: txt(texts, "site.nav.footer.build_info"),
                },
            },
        }
    }

    /// The parameters of a link to `path`.
    pub fn params_for(&self, path: &str) -> (r: PageQuery)
        ensures
            r@ == link_params(self.locale@, self.path@, query_view(self.query), path@),
    {
        let mut params = PageQuery::new();
        params.insert("loc".to_owned(), self.locale.clone());
        proof {
            lemma_text_rank_same(self.path@, path@);
        }
        match compare_text(self.path.as_str(), path) {
            Rank::Same => match &self.query {
                Some(query) => {
                    merge_params(&mut params, query);
                },
                None => {},
            },
            _ => {},
        }
        params
    }

    /// The parameters of the page itself, with the locale or without.
    pub fn params_current(&self, with_locale: bool) -> (r: PageQuery)
        ensures
            r@ == current_params(self.locale@, query_view(self.query), with_locale),
    {
        let mut params = PageQuery::new();
        if with_locale {
            params.insert("loc".to_owned(), self.locale.clone());
        }
        match &self.query {
            Some(query) => {
                merge_params(&mut params, query);
            },
            None => {},
        }
        params
    }

    /// The query of a link to `path` as it stands in an address.
    pub fn page_query_for(&self, path: &str) -> (r: String)
        ensures
            r@ == query_text(
                link_params(self.locale@, self.path@, query_view(self.query), path@),
                link_params(self.locale@, self.path@, query_view(self.query), path@).len(),
            ),
    {
        let params = self.params_for(path);
        let mut s = String::new();
        let mut i: usize = 0;
        assert(s@ =~= query_text(params@, 0));
        while i < params.len()
            invariant
                i <= params@.len(),
                s@ == query_text(params@, i as nat),
            decreases params@.len() - i,
        {
            s.append("?");
            s.append(params.key(i));
            s.append("=");
            s.append(params.value(i));
            assert(s@ =~= query_text(params@, (i + 1) as nat));
            i = i + 1;
        }
        s
    }
}

/// The texts of the page that is served where no other fits.
pub struct NotFoundLocales {
    pub site: SiteLocales,
}

/// The page that is served where no other fits.
pub struct NotFound<'a> {
    pub site_info: &'a SiteInfo,
    pub i18n: NotFoundLocales,
}

impl<'a> NotFound<'a> {
    /// The page for a request to `path` in `locale`.
    pub fn new(locale: &str, path: &str, info: &'a SiteInfo, texts: &PageQuery) -> (r: NotFound<'a>)
        ensures
            r.site_info == info,
            r.i18n.site.locale@ == locale@,
            r.i18n.site.path@ == path@,
            r.i18n.site.query is None,
            r.i18n.site.name@ == translated(texts@, "site.name"@),
            r.i18n.site.locales@ == locale_names(texts@),
    {
        NotFound {
            site_info: info,
            i18n: NotFoundLocales { site: SiteLocales::new(locale, path, None, texts) },
        }
    }
}

/// The texts of the front page.
pub struct NewsLocales {
    pub site: SiteLocales,
}

/// The front page.
pub struct News<'a> {
    pub site_info: &'a SiteInfo,
    pub i18n: NewsLocales,
}

impl<'a> News<'a> {
    /// The page for a request to `path` in `locale`.
    pub fn new(locale: &str, path: &str, info: &'a SiteInfo, texts: &PageQuery) -> (r: News<'a>)
        ensures
            r.site_info == info,
            r.i18n.site.locale@ == locale@,
            r.i18n.site.path@ == path@,
            r.i18n.site.query is None,
            r.i18n.site.name@ == translated(texts@, "site.name"@),
            r.i18n.site.locales@ == locale_names(texts@),
    {
        News {
            site_info: info,
            i18n: NewsLocales { site: SiteLocales::new(locale, path, None, texts) },
        }
    }
}

/// What was searched for: what stands under `q`, or nothing.
pub open spec fn searched(params: Seq<(Seq<char>, Seq<char>)>) -> Seq<char> {
    match value_of(params, "q"@) {
        Some(q) => q,
        None => Seq::empty(),
    }
}

/// Reads what was searched for from `params`, and makes the query that
/// holds it and nothing else.
fn search_query(params: &PageQuery) -> (r: (String, PageQuery))
    ensures
        r.0@ == searched(params@),
        r.1@ == with_param(Seq::empty(), "q"@, searched(params@)),
{
    let q = match params.get("q") {
        Some(q) => q.to_owned(),
        None => String::new(),
    };
    let mut query = PageQuery::new();
    query.insert("q".to_owned(), q.clone());
    (q, query)
}

/// The texts of the page of one item.
pub struct ItemLocales {
    pub site: SiteLocales,
}

/// The page of one item.
pub struct Item<'a> {
    pub site_info: &'a SiteInfo,
    pub q: String,
    pub i18n: ItemLocales,
}

impl<'a> Item<'a> {
    /// The page for a request to `path` in `locale` with the parameters
    /// `params`.
    pub fn new(
        locale: &str,
        path: &str,
        info: &'a SiteInfo,
        params: &PageQuery,
        texts: &PageQuery,
    ) -> (r: Item<'a>)
        ensures
            r.site_info == info,
            r.q@ == searched(params@),
            r.i18n.site.locale@ == locale@,
            r.i18n.site.path@ == path@,
            r.i18n.site.query is Some && r.i18n.site.query->0@ == with_param(
                Seq::empty(),
                "q"@,
                searched(params@),
            ),
            r.i18n.site.name@ == translated(texts@, "site.name"@),
    {
        let (q, query) = search_query(params);
        Item {
            site_info: info,
            q,
            i18n: ItemLocales { site: SiteLocales::new(locale, path, Some(query), texts) },
        }
    }
}

/// The texts of the search page.
pub struct SearchLocales {
    pub site: SiteLocales,
}

/// The search page.
pub struct Search<'a> {
    pub site_info: &'a SiteInfo,
    pub q: String,
    pub i18n: SearchLocales,
}

impl<'a> Search<'a> {
    /// The page for a request to `path` in `locale` with the parameters
    /// `params`.
    pub fn new(
        locale: &str,
        path: &str,
        info: &'a SiteInfo,
        params: &PageQuery,
        texts: &PageQuery,
    ) -> (r: Search<'a>)
        ensures
            r.site_info == info,
            r.q@ == searched(params@),
            r.i18n.site.locale@ == locale@,
            r.i18n.site.path@ == path@,
            r.i18n.site.query is Some && r.i18n.site.query->0@ == with_param(
                Seq::empty(),
                "q"@,
                searched(params@),
            ),
            r.i18n.site.name@ == translated(texts@, "site.name"@),
    {
        let (q, query) = search_query(params);
        Search {
            site_info: info,
            q,
            i18n: SearchLocales { site: SiteLocales::new(locale, path, Some(query), texts) },
        }
    }
}

/// The texts of the security page.
pub struct SecurityLocales {
    pub site: SiteLocales,
    pub intro: String,
    pub reports: String,
}

/// The security page.
pub struct Security<'a> {
    pub site_info: &'a SiteInfo,
    pub i18n: SecurityLocales,
}

impl<'a> Security<'a> {
    /// The page for a request to `path` in `locale`; its own texts are
    /// Markdown and stand here as HTML.
    pub fn new(locale: &str, path: &str, info: &'a SiteInfo, texts: &PageQuery) -> (r: Security<'a>)
        ensures
            r.site_info == info,
            r.i18n.site.locale@ == locale@,
            r.i18n.site.path@ == path@,
            r.i18n.site.query is None,
            r.i18n.site.name@ == translated(texts@, "site.name"@),
            r.i18n.intro@ == markdown_html(translated(texts@, "page.security.intro"@)),
            r.i18n.reports@ == markdown_html(translated(texts@, "page.security.reports"@)),
    {
        Security {
            site_info: info,
            i18n: SecurityLocales {
                site: SiteLocales::new(locale, path, None, texts),
                intro: md(texts, "page.security.intro"),
                reports: md(texts, "page.security.reports"),
            },
        }
    }
}

} // verus!
