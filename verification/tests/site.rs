use plabayo_news::data::database::Database;
use plabayo_news::data::models::{Item as StoredItem, ItemKind, ItemState, UserState};
use plabayo_news::site::cache::{
    cache_age_of, get_cache_control_directive_for_path, page_max_cache_age_sec, CacheDirective,
    CacheMiddleware,
};
use plabayo_news::site::l18n::{Locale, UnknownLocale};
use plabayo_news::site::middleware::SiteInfoMiddleware;
use plabayo_news::site::models::Item;
use plabayo_news::site::params::PageQuery;
use plabayo_news::site::session::{Session, UserReference};
use plabayo_news::site::state::{SiteInfo, SiteState};
use plabayo_news::site::templates::{md, txt, Item as ItemPage, NotFound, Search, Security, SiteLocales};
use plabayo_news::text::{
    compare_text, find_char, push_decimal, push_repeated, sort_texts, Rank,
};

fn params(entries: &[(&str, &str)]) -> PageQuery {
    let mut query = PageQuery::new();
    for (k, v) in entries {
        query.insert(k.to_string(), v.to_string());
    }
    query
}

fn listed(query: &PageQuery) -> Vec<(String, String)> {
    (0..query.len()).map(|i| (query.key(i).to_string(), query.value(i).to_string())).collect()
}

fn pairs(entries: &[(&str, &str)]) -> Vec<(String, String)> {
    entries.iter().map(|(k, v)| (k.to_string(), v.to_string())).collect()
}

fn info() -> SiteInfo {
    SiteInfo::new("2021-10-03T12:00:00+00:00", "0.1.0", "0123456789abcdef")
}

#[test]
fn text_is_ordered_by_bytes() {
    assert_eq!(compare_text("a", "b"), Rank::Before);
    assert_eq!(compare_text("b", "a"), Rank::After);
    assert_eq!(compare_text("ab", "ab"), Rank::Same);
    assert_eq!(compare_text("a", "ab"), Rank::Before);
    assert_eq!(compare_text("", ""), Rank::Same);
    assert_eq!(compare_text("Z", "a"), Rank::Before);
    assert_eq!(compare_text("z", "\u{e9}"), Rank::Before);
    assert_eq!(compare_text("\u{e9}", "\u{20ac}"), Rank::Before);
}

#[test]
fn texts_are_sorted() {
    let sorted = sort_texts(vec!["nl".to_string(), "en".to_string(), "es".to_string(), "en".to_string()]);
    assert_eq!(sorted, vec!["en", "en", "es", "nl"]);
}

#[test]
fn decimal_numerals_and_repeats() {
    let mut out = String::from("n=");
    push_decimal(&mut out, 0);
    push_decimal(&mut out, 7);
    push_decimal(&mut out, 1203);
    push_decimal(&mut out, u64::MAX);
    assert_eq!(out, "n=07120318446744073709551615");
    let mut line = String::from("|");
    push_repeated(&mut line, "ab", 3);
    push_repeated(&mut line, "x", 0);
    assert_eq!(line, "|ababab");
}

#[test]
fn parameters_stay_in_key_order() {
    let mut query = params(&[("q", "1"), ("a", "2"), ("loc", "en")]);
    assert_eq!(listed(&query), pairs(&[("a", "2"), ("loc", "en"), ("q", "1")]));
    query.insert("loc".to_string(), "nl".to_string());
    assert_eq!(listed(&query), pairs(&[("a", "2"), ("loc", "nl"), ("q", "1")]));
    assert_eq!(query.get("loc"), Some("nl"));
    assert_eq!(query.get("b"), None);
    assert_eq!(query.get("z"), None);
    assert_eq!(PageQuery::new().len(), 0);
}

#[test]
fn site_locales_link_parameters() {
    let texts = params(&[("site.name", "News"), ("site.locales.nl", "Nederlands")]);
    let site = SiteLocales::new("nl", "/search", Some(params(&[("q", "rust"), ("a", "1")])), &texts);
    assert_eq!(site.name, "News");
    assert_eq!(site.repository, "https://github.com/plabayo/news");
    assert_eq!(site.nav.header.news, "site.nav.header.news");
    assert_eq!(
        listed(&site.locales),
        pairs(&[("en", "site.locales.en"), ("es", "site.locales.es"), ("nl", "Nederlands")])
    );
    assert_eq!(listed(&site.params_for("/search")), pairs(&[("a", "1"), ("loc", "nl"), ("q", "rust")]));
    assert_eq!(listed(&site.params_for("/news")), pairs(&[("loc", "nl")]));
    assert_eq!(listed(&site.params_current(true)), pairs(&[("a", "1"), ("loc", "nl"), ("q", "rust")]));
    assert_eq!(listed(&site.params_current(false)), pairs(&[("a", "1"), ("q", "rust")]));
    assert_eq!(site.page_query_for("/search"), "?a=1?loc=nl?q=rust");
    assert_eq!(site.page_query_for("/"), "?loc=nl");
}

#[test]
fn query_parameter_wins_over_the_locale() {
    let texts = PageQuery::new();
    let site = SiteLocales::new("en", "/", Some(params(&[("loc", "es")])), &texts);
    assert_eq!(listed(&site.params_for("/")), pairs(&[("loc", "es")]));
    let none = SiteLocales::new("en", "/", None, &texts);
    assert_eq!(listed(&none.params_for("/")), pairs(&[("loc", "en")]));
    assert_eq!(none.params_current(false).len(), 0);
    assert_eq!(none.page_query_for("/"), "?loc=en");
}

#[test]
fn texts_fall_back_to_their_key() {
    let texts = params(&[("page.security.intro", "be *safe*")]);
    assert_eq!(txt(&texts, "page.security.intro"), "be *safe*");
    assert_eq!(txt(&texts, "missing.key"), "missing.key");
    assert_eq!(md(&texts, "page.security.intro"), "<p>be <em>safe</em></p>\n");
}

#[test]
fn pages_are_made_of_locale_path_and_texts() {
    let info = info();
    let texts = params(&[("site.name", "News"), ("page.security.reports", "# Reports")]);
    let not_found = NotFound::new("en", "/", &info, &texts);
    assert_eq!(not_found.i18n.site.locale, "en");
    assert_eq!(not_found.i18n.site.path, "/");
    assert!(not_found.i18n.site.query.is_none());
    assert_eq!(not_found.site_info.git_sha_short, "01234567");
    let security = Security::new("nl", "/security", &info, &texts);
    assert_eq!(security.i18n.site.name, "News");
    assert_eq!(security.i18n.reports, "<h1>Reports</h1>\n");
    assert_eq!(security.i18n.intro, "<p>page.security.intro</p>\n");
    let search = Search::new("en", "/search", &info, &params(&[("q", "verus"), ("x", "y")]), &texts);
    assert_eq!(search.q, "verus");
    assert_eq!(listed(search.i18n.site.query.as_ref().unwrap()), pairs(&[("q", "verus")]));
    let item = ItemPage::new("en", "/item", &info, &PageQuery::new(), &texts);
    assert_eq!(item.q, "");
    assert_eq!(listed(item.i18n.site.query.as_ref().unwrap()), pairs(&[("q", "")]));
}

#[test]
fn cache_age_by_root() {
    assert_eq!(page_max_cache_age_sec("assets"), 86400);
    assert_eq!(page_max_cache_age_sec("ASSETS"), 86400);
    assert_eq!(page_max_cache_age_sec("asset"), 0);
    assert_eq!(page_max_cache_age_sec(""), 0);
    assert_eq!(page_max_cache_age_sec("news"), 0);
    assert_eq!(cache_age_of("assets"), 86400);
    assert_eq!(cache_age_of("ASSETS"), 0);
}

#[test]
fn cache_control_by_path() {
    let day = vec![CacheDirective::MaxAge(86400), CacheDirective::Public];
    let fresh = vec![CacheDirective::NoCache];
    assert_eq!(get_cache_control_directive_for_path("/assets/style.css"), day);
    assert_eq!(get_cache_control_directive_for_path("/Assets"), day);
    assert_eq!(get_cache_control_directive_for_path("/news"), fresh);
    assert_eq!(get_cache_control_directive_for_path("/"), fresh);
    assert_eq!(get_cache_control_directive_for_path("assets"), fresh);
    assert_eq!(get_cache_control_directive_for_path("x/assets/y"), day);
    assert_eq!(get_cache_control_directive_for_path(""), fresh);
    assert_eq!(find_char("a/b/c", '/', 0, 5), 1);
    assert_eq!(find_char("a/b/c", '/', 2, 5), 3);
    assert_eq!(find_char("a/b/c", '/', 4, 5), 5);
}

#[test]
fn cache_control_by_request() {
    let fresh = vec![CacheDirective::NoCache];
    let control = |requested: &[CacheDirective], path: &str| {
        CacheMiddleware::<()>::cache_control(Some(&requested.to_vec()), path)
    };
    assert_eq!(
        control(&[CacheDirective::MaxAge(10), CacheDirective::NoCache], "/assets/x"),
        fresh
    );
    assert_eq!(control(&[CacheDirective::MaxAge(0)], "/assets/x"), fresh);
    assert_eq!(
        control(&[CacheDirective::Other, CacheDirective::MaxAge(60), CacheDirective::MaxAge(5)], "/news"),
        vec![CacheDirective::MaxAge(60), CacheDirective::Public]
    );
    assert_eq!(
        control(&[CacheDirective::MaxAge(1_000_000)], "/news"),
        vec![CacheDirective::MaxAge(86400), CacheDirective::Public]
    );
    assert_eq!(
        control(&[CacheDirective::Public], "/assets/x"),
        vec![CacheDirective::MaxAge(86400), CacheDirective::Public]
    );
    assert_eq!(control(&[], "/news"), fresh);
    assert_eq!(CacheMiddleware::<()>::cache_control(None, "/news"), fresh);
    assert_eq!(CacheMiddleware::new(7u8).service, 7u8);
}

#[test]
fn locales_are_named_whatever_the_case() {
    assert_eq!(Locale::try_from("en"), Ok(Locale::En));
    assert_eq!(Locale::try_from(" NL\n"), Ok(Locale::Nl));
    assert_eq!(Locale::try_from("Es"), Ok(Locale::Es));
    assert_eq!(Locale::try_from("de"), Err(UnknownLocale {}));
    assert_eq!(Locale::try_from(""), Err(UnknownLocale {}));
    assert_eq!(Locale::from_key("nl"), Ok(Locale::Nl));
    assert_eq!(Locale::from_key("NL"), Err(UnknownLocale {}));
    assert_eq!(Locale::from_key(" nl"), Err(UnknownLocale {}));
    assert_eq!(Locale::from("de"), Locale::En);
    assert_eq!(Locale::from("nl"), Locale::Nl);
    assert_eq!(Locale::default(), Locale::En);
    assert_eq!(Locale::Es.as_str(), "es");
    assert_eq!(Locale::En.as_str(), "en");
    assert_eq!(Locale::Nl.as_str(), "nl");
}

#[test]
fn session_locale_and_user() {
    let session = Session::new(Some(Locale::Nl), Some(12));
    assert_eq!(session.locale(), Locale::Nl);
    let user = session.user().unwrap();
    assert_eq!(user.id, 12);
    assert_eq!(user.username.as_deref(), Some("User#12"));
    assert_eq!(user.state, UserState::Public);
    assert_eq!(user.karma, 42);
    assert_eq!(user.create_time, 0);
    assert!(user.locale.is_none());
    assert!(user.authentications.is_empty());
    let anonymous = Session::new(None, None);
    assert_eq!(anonymous.locale(), Locale::En);
    assert!(anonymous.user().is_none());
    let user = UserReference::new(0).user().ok().unwrap();
    assert_eq!(user.username.as_deref(), Some("User#0"));
    assert_eq!(user.last_login_time, 0);
    assert!(user.name.is_none() && user.about.is_none() && user.preferences.is_none());
    assert!(user.items.is_empty() && user.ips.is_empty());
}

#[test]
fn build_info() {
    let info = info();
    assert_eq!(info.build_date, "2021-10-03");
    assert_eq!(info.build_semver, "0.1.0");
    assert_eq!(info.git_sha, "0123456789abcdef");
    assert_eq!(info.git_sha_short, "01234567");
    assert_eq!(info.repository, "https://github.com/plabayo/news");
    assert_eq!(SiteInfo::new("", "1", "abc").version, 0xcbf29ce484222325);
    assert_eq!(SiteInfo::new("a", "1", "abc").version, 0xaf63dc4c8601ec8c);
    assert_eq!(SiteInfo::new("foobar", "1", "abc").version, 0x85944171f73967e8);
    assert_eq!(SiteInfo::new("no date", "1", "abc").build_date, "no date");
    assert_eq!(SiteInfo::new("T", "1", "abc").build_date, "");
    assert_eq!(SiteInfo::new("t", "1", "abc").git_sha_short, "abc");
    let state = SiteState::new("2021-10-03T12:00:00+00:00", "0.1.0", "0123456789abcdef");
    assert_eq!(state.info.version, info.version);
    assert_eq!(state.info.build_date, "2021-10-03");
}

#[test]
fn build_headers() {
    let headers = SiteInfoMiddleware::<()>::headers(&info());
    assert_eq!(
        headers,
        vec![
            ("x-plabayo-news-build-version".to_string(), "v0.1.0-01234567".to_string()),
            ("x-plabayo-news-build-date".to_string(), "2021-10-03".to_string()),
        ]
    );
    assert_eq!(SiteInfoMiddleware::new(1u8).service, 1u8);
}

#[test]
fn items_as_pages_show_them() {
    let stored = Database {}.get_news_ranked(100);
    assert_eq!(stored.len(), 1);
    assert_eq!(stored[0].kind, ItemKind::Story);
    assert_eq!(stored[0].votes, 42);
    assert_eq!(stored[0].time, 100);
    let shown: Vec<Item> = stored.into_iter().map(Item::from_data).collect();
    assert_eq!(shown[0].id, 1);
    assert!(!shown[0].hidden);
    assert!(!shown[0].modified);
    assert_eq!(shown[0].by, "user#100");
    assert_eq!(shown[0].by_id, 100);
    assert_eq!(shown[0].rel_time, "4 hours ago");
    assert_eq!(shown[0].title, "an example news article");
    let url = shown[0].url.as_ref().unwrap();
    assert_eq!((url.full.as_str(), url.domain.as_str()), ("https://www.example.org/", "example.org"));
    assert!(shown[0].text.is_none());
    assert!(shown[0].comments.is_empty());

    let comment = Item::from_data(StoredItem {
        id: 9,
        state: ItemState::Locked,
        kind: ItemKind::Comment,
        by: 3,
        time: 10,
        mod_time: 11,
        votes: -2,
        text: Some("<p>hi</p>".to_string()),
        parent: Some(1),
        kids: vec![],
        url: None,
        title: None,
    });
    assert!(comment.hidden);
    assert!(comment.modified);
    assert_eq!(comment.votes, -2);
    assert_eq!(comment.title, "");
    assert!(comment.url.is_none());
    assert_eq!(comment.text.as_deref(), Some("<p>hi</p>"));
}
