use plabayo_news::i18n::merge::find_left_out;
use plabayo_news::i18n::pair::StringValuePathPair;
use plabayo_news::site::l18n::Locale;
use plabayo_news::site::pages::{route, serve_page, PageState, Route};
use plabayo_news::site::params::{has_text, PageQuery};
use plabayo_news::site::session::{locale_of_language, Session};
use plabayo_news::text::{find_any, is_among, parse_u64, split, split_any};
use std::cmp::Ordering;

fn own(segments: &[&str], value: &str) -> StringValuePathPair {
    StringValuePathPair::new(segments.iter().map(|s| s.to_string()).collect(), value.to_string())
}

fn params(entries: &[(&str, &str)]) -> PageQuery {
    let mut query = PageQuery::new();
    for (k, v) in entries {
        query.insert(k.to_string(), v.to_string());
    }
    query
}

fn listed(query: &PageQuery) -> Vec<(String, String)> {
    (0..query.len()).map(|i| (query.key(i).to_string(), query.value(i).to_string())).collect()
}

fn pairs(entries: &[(&str, &str)]) -> Vec<(String, String)> {
    entries.iter().map(|(k, v)| (k.to_string(), v.to_string())).collect()
}

fn state(path: &str, query: PageQuery) -> PageState {
    PageState::new(Locale::Nl, path.to_string(), query, 1_600_000_000, None)
}

#[test]
fn text_is_cut_at_separators() {
    assert_eq!(split("a&b&&c", '&'), vec!["a", "b", "", "c"]);
    assert_eq!(split("", '&'), vec![""]);
    assert_eq!(split("&", '&'), vec!["", ""]);
    assert_eq!(split("abc", '&'), vec!["abc"]);
    assert_eq!(split("\u{e9}&\u{20ac}", '&'), vec!["\u{e9}", "\u{20ac}"]);
    let separators = vec![',', ';'];
    assert_eq!(split_any("a,b;c", &separators), vec!["a", "b", "c"]);
    assert_eq!(find_any("ab;c", &separators, 0, 4), 2);
    assert_eq!(find_any("ab;c", &separators, 3, 4), 4);
    assert!(is_among(&separators, ';'));
    assert!(!is_among(&separators, '.'));
}

#[test]
fn numbers_are_read_as_u64_reads_them() {
    for text in ["0", "7", "+7", "0012", "18446744073709551615", "18446744073709551616", "", "+", "-1", "1a", " 1", "1 ", "++1", "99999999999999999999999", "\u{663}"] {
        assert_eq!(parse_u64(text), text.parse::<u64>().ok(), "{:?}", text);
    }
    assert_eq!(parse_u64("1203"), Some(1203));
    assert_eq!(parse_u64("18446744073709551616"), None);
}

#[test]
fn session_from_the_parts_of_a_request() {
    let session = Session::from_request(Some("nl-BE,nl;q=0.9,en;q=0.8"), Some("42"));
    assert_eq!(session.locale(), Locale::Nl);
    assert_eq!(session.user().unwrap().id, 42);
    assert_eq!(Session::from_request(Some("de, fr;q=0.9, ES"), Some("x")).locale(), Locale::Es);
    assert!(Session::from_request(Some("de"), Some("x")).user().is_none());
    assert_eq!(Session::from_request(Some("de-CH, fr"), None).locale(), Locale::En);
    assert_eq!(Session::from_request(Some("de, *;q=0.5, nl"), None).locale(), Locale::En);
    assert_eq!(Session::from_request(Some(" * "), None).locale(), Locale::En);
    assert_eq!(Session::from_request(None, None).locale(), Locale::En);
    assert_eq!(Session::from_request(Some(""), None).locale(), Locale::En);
    assert!(Session::from_request(None, None).user().is_none());
    assert_eq!(locale_of_language("*"), Some(Locale::En));
    assert_eq!(locale_of_language("ES"), Some(Locale::Es));
    assert_eq!(locale_of_language("fr"), None);
}

#[test]
fn page_parameters() {
    let page = state("/search", params(&[("q", "rust"), ("page", "2"), ("loc", "nl")]));
    assert_eq!(page.locale, Locale::Nl);
    assert_eq!(page.gen_date_time, 1_600_000_000);
    assert!(page.user.is_none());
    assert_eq!(
        listed(&page.params_for("/search", "")),
        pairs(&[("loc", "nl"), ("page", "2"), ("q", "rust")])
    );
    assert_eq!(listed(&page.params_for("/search", "page&loc")), pairs(&[("q", "rust")]));
    assert_eq!(page.params_for("/news", "").len(), 0);
    assert_eq!(listed(&page.params_current("q")), pairs(&[("loc", "nl"), ("page", "2")]));
    assert_eq!(page.page_query_for("/search", "loc"), "?page=2&q=rust");
    assert_eq!(page.page_query_for("/search", "loc&page&q"), "");
    assert_eq!(page.page_query_for("/news", ""), "");
    assert_eq!(page.class_nav_button_for("/search"), "selected");
    assert_eq!(page.class_nav_button_for("/news"), "unselected");
    assert!(has_text(&vec!["a".to_string(), "b".to_string()], "b"));
    assert!(!has_text(&vec!["a".to_string()], "b"));
}

#[test]
fn requests_are_routed_by_resource() {
    assert_eq!(serve_page(""), (Route::Front, "/".to_string()));
    assert_eq!(serve_page("INDEX"), (Route::Front, "/".to_string()));
    assert_eq!(serve_page("news"), (Route::News, "/news".to_string()));
    assert_eq!(serve_page("Search"), (Route::Search, "/search".to_string()));
    assert_eq!(serve_page("item"), (Route::Item, "/item".to_string()));
    assert_eq!(serve_page("Security"), (Route::Static, "/security".to_string()));
    assert_eq!(route("News"), (Route::Static, "/News".to_string()));
    assert_eq!(route("news"), (Route::News, "/news".to_string()));
    assert_eq!(route(""), (Route::Front, "/".to_string()));
}

#[test]
fn left_out_pairs_are_found() {
    let default = vec![own(&["b"], "B"), own(&["d"], "D")];
    let locale = vec![own(&["a"], "1"), own(&["b"], "2"), own(&["c"], "3"), own(&["e"], "4")];
    let left: Vec<String> =
        find_left_out(&locale, &default).iter().map(|p| p.path.join(".")).collect();
    assert_eq!(left, vec!["a", "c", "e"]);
    assert!(find_left_out(&vec![own(&["b"], "2")], &default).is_empty());
    assert_eq!(find_left_out(&vec![own(&["x"], "1")], &vec![]).len(), 1);
}

#[test]
fn pairs_are_equal_and_ordered_by_path() {
    assert!(own(&["a", "b"], "1") == own(&["a", "b"], "2"));
    assert!(own(&["a", "b"], "1") != own(&["a"], "1"));
    assert!(own(&["a"], "9") < own(&["a", "b"], "1"));
    assert!(own(&["b"], "1") > own(&["a", "z"], "1"));
    assert_eq!(own(&["a"], "1").cmp(&own(&["a"], "2")), Ordering::Equal);
    assert_eq!(own(&["a"], "1").cmp(&own(&["b"], "2")), Ordering::Less);
    assert_eq!(own(&["b"], "1").partial_cmp(&own(&["a"], "2")), Some(Ordering::Greater));
}
