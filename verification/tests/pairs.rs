use plabayo_news::i18n::codegen::instance::{
    count_common_prefix, generate_locales_strings_instance, name_pairs, push_closers, push_entry,
    push_leaf_line, push_openers, Entry,
};
use plabayo_news::i18n::codegen::record::{
    find_deepest, generate_locales_strings_struct, same_prefix,
};
use plabayo_news::i18n::flatten::ValueIter;
use plabayo_news::i18n::locales::Locales;
use plabayo_news::i18n::merge::LocaleStringWithDefaultIter;
use plabayo_news::i18n::names::{
    is_ascii_path, make_field_name, name_path, push_default_reference, push_record_name, NamedPath,
};
use plabayo_news::i18n::pair::{sort_pairs, Source, StringValuePathPair};
use plabayo_news::i18n::path::{clone_path, compare_paths};
use plabayo_news::i18n::typed::{find_entry, TypedValue, TypedValueError, ValueFormat};
use plabayo_news::i18n::value::Node;
use plabayo_news::text::Rank;

fn path(segments: &[&str]) -> Vec<String> {
    segments.iter().map(|s| s.to_string()).collect()
}

fn own(segments: &[&str], value: &str) -> StringValuePathPair {
    StringValuePathPair::new(path(segments), value.to_string())
}

fn text(value: &str) -> Node {
    Node::String(value.to_string())
}

fn mapping(entries: Vec<(&str, Node)>) -> Node {
    Node::Mapping(entries.into_iter().map(|(k, v)| (text(k), v)).collect())
}

fn shown(pairs: &[StringValuePathPair]) -> Vec<(String, String, Source)> {
    pairs.iter().map(|p| (p.path.join("."), p.value.clone(), p.source)).collect()
}

fn merge(
    locale: Vec<StringValuePathPair>,
    default: Vec<StringValuePathPair>,
) -> Vec<StringValuePathPair> {
    LocaleStringWithDefaultIter::new(locale, default).collect()
}

#[test]
fn paths_are_ordered_segment_by_segment() {
    assert_eq!(compare_paths(&path(&["a", "b"]), &path(&["a", "b"])), Rank::Same);
    assert_eq!(compare_paths(&path(&["a"]), &path(&["a", "b"])), Rank::Before);
    assert_eq!(compare_paths(&path(&["a", "b"]), &path(&["a"])), Rank::After);
    assert_eq!(compare_paths(&path(&["a", "z"]), &path(&["b"])), Rank::Before);
    assert_eq!(compare_paths(&path(&["ab"]), &path(&["a", "b"])), Rank::After);
    assert_eq!(compare_paths(&path(&[]), &path(&[])), Rank::Same);
    assert_eq!(compare_paths(&path(&[]), &path(&["a"])), Rank::Before);
    assert_eq!(clone_path(&path(&["x", "y"])), path(&["x", "y"]));
}

#[test]
fn pairs_compare_by_path_alone() {
    assert_eq!(own(&["a"], "1").compare(&own(&["a"], "2")), Rank::Same);
    assert_eq!(own(&["a"], "2").compare(&own(&["b"], "1")), Rank::Before);
    let copy = own(&["a", "b"], "v").duplicate();
    assert_eq!(copy.path, path(&["a", "b"]));
    assert_eq!(copy.value, "v");
    assert_eq!(copy.source, Source::Own);
}

#[test]
fn sort_orders_by_path_and_keeps_equal_paths_in_order() {
    let sorted = sort_pairs(vec![
        own(&["site", "name"], "1"),
        own(&["nav", "submit"], "2"),
        own(&["nav"], "3"),
        own(&["site", "name"], "4"),
        own(&["a", "z"], "5"),
    ]);
    assert_eq!(
        shown(&sorted),
        vec![
            ("a.z".to_string(), "5".to_string(), Source::Own),
            ("nav".to_string(), "3".to_string(), Source::Own),
            ("nav.submit".to_string(), "2".to_string(), Source::Own),
            ("site.name".to_string(), "1".to_string(), Source::Own),
            ("site.name".to_string(), "4".to_string(), Source::Own),
        ]
    );
    assert!(sort_pairs(vec![]).is_empty());
}

#[test]
fn sorting_does_not_depend_on_the_order_of_traversal() {
    let one = sort_pairs(vec![own(&["b"], "2"), own(&["a"], "1"), own(&["c"], "3")]);
    let two = sort_pairs(vec![own(&["c"], "3"), own(&["b"], "2"), own(&["a"], "1")]);
    assert_eq!(shown(&one), shown(&two));
}

#[test]
fn merge_fills_gaps_with_references() {
    let default = vec![own(&["a"], "A"), own(&["b", "c"], "BC"), own(&["d"], "D")];
    let locale = vec![own(&["b", "c"], "bc")];
    let complete = merge(locale, default);
    assert_eq!(
        shown(&complete),
        vec![
            ("a".to_string(), "".to_string(), Source::Default),
            ("b.c".to_string(), "bc".to_string(), Source::Own),
            ("d".to_string(), "".to_string(), Source::Default),
        ]
    );
}

#[test]
fn merge_is_complete_for_an_empty_locale_and_empty_for_an_empty_default() {
    let complete = merge(vec![], vec![own(&["a"], "A"), own(&["b"], "B")]);
    assert_eq!(
        shown(&complete),
        vec![
            ("a".to_string(), "".to_string(), Source::Default),
            ("b".to_string(), "".to_string(), Source::Default),
        ]
    );
    assert!(merge(vec![own(&["a"], "x")], vec![]).is_empty());
}

#[test]
fn merge_keeps_the_locales_own_value_and_drops_what_the_default_lacks() {
    let default = vec![own(&["b"], "B"), own(&["d"], "D")];
    let locale = vec![own(&["a"], "a"), own(&["b"], "b"), own(&["c"], "c"), own(&["d"], "d"), own(&["e"], "e")];
    let complete = merge(locale, default);
    assert_eq!(
        shown(&complete),
        vec![
            ("b".to_string(), "b".to_string(), Source::Own),
            ("d".to_string(), "d".to_string(), Source::Own),
        ]
    );
}

#[test]
fn merge_does_not_copy_the_default_value() {
    let locale = || vec![own(&["b"], "b")];
    let one = merge(locale(), vec![own(&["a"], "first"), own(&["b"], "B")]);
    let two = merge(locale(), vec![own(&["a"], "second"), own(&["b"], "other")]);
    assert_eq!(shown(&one), shown(&two));
}

#[test]
fn merge_hands_out_one_pair_at_a_time() {
    let mut iter = LocaleStringWithDefaultIter::new(
        vec![own(&["b"], "b")],
        vec![own(&["a"], "A"), own(&["b"], "B")],
    );
    let first = iter.next().unwrap();
    assert_eq!((first.path.join("."), first.source), ("a".to_string(), Source::Default));
    let second = iter.next().unwrap();
    assert_eq!((second.value, second.source), ("b".to_string(), Source::Own));
    assert!(iter.next().is_none());
    assert!(iter.next().is_none());
}

fn named(segments: &[&str], fields: &[&str], records: &[&str]) -> NamedPath {
    NamedPath { path: path(segments), fields: path(fields), records: path(records) }
}

fn entry(segments: &[&str], fields: &[&str], records: &[&str], value: &str, source: Source) -> Entry {
    Entry { names: named(segments, fields, records), value: value.to_string(), source }
}

fn simple(segments: &[&str], value: &str) -> Entry {
    let records: Vec<String> = segments.iter().map(|s| s.to_uppercase()).collect();
    Entry {
        names: NamedPath { path: path(segments), fields: path(segments), records },
        value: value.to_string(),
        source: Source::Own,
    }
}

#[test]
fn names_of_fields_records_and_references() {
    assert_eq!(make_field_name("  Hello World \n"), "hello world");
    assert_eq!(make_field_name("submit"), "submit");
    let names = name_path(&path(&["Site", "nav_header", " more"]));
    assert_eq!(names.path, path(&["Site", "nav_header", " more"]));
    assert_eq!(names.fields, path(&["site", "nav_header", "more"]));
    assert_eq!(names.records, path(&["Site", "NavHeader", "More"]));
    assert!(is_ascii_path(&path(&["a", "b c"])));
    assert!(!is_ascii_path(&path(&["a", "\u{e9}"])));
    let mut reference = String::from("x: ");
    push_default_reference(&mut reference, &path(&["nav", "submit"]));
    assert_eq!(reference, "x: STRINGS_DEFAULT.nav.submit");
    let mut root_reference = String::new();
    push_default_reference(&mut root_reference, &path(&[]));
    assert_eq!(root_reference, "STRINGS_DEFAULT");
    let mut out = String::from("x: ");
    push_record_name(&mut out, &path(&["Site", "NavHeader", "More"]), 2);
    assert_eq!(out, "x: StringsSiteNavHeader");
    let mut root = String::new();
    push_record_name(&mut root, &path(&["Site"]), 0);
    assert_eq!(root, "Strings");
}

#[test]
fn pairs_are_named_where_their_paths_allow_it() {
    let entries = name_pairs(&vec![own(&["Nav", "submit"], "Submit")]).unwrap();
    assert_eq!(entries.len(), 1);
    assert_eq!(entries[0].names.fields, path(&["nav", "submit"]));
    assert_eq!(entries[0].names.records, path(&["Nav", "Submit"]));
    assert_eq!((entries[0].value.as_str(), entries[0].source), ("Submit", Source::Own));
    assert!(name_pairs(&vec![own(&["a"], "1"), own(&[], "2")]).is_none());
    assert!(name_pairs(&vec![own(&["a", "\u{df}"], "1")]).is_none());
    assert!(name_pairs(&vec![]).unwrap().is_empty());
}

#[test]
fn typed_value_shapes() {
    let md = mapping(vec![("value", text("a *b*")), ("format", text("md"))]);
    let leaf = TypedValue::try_from(&md).ok().unwrap();
    assert_eq!(leaf.format, Some(ValueFormat::Markdown));
    assert!(leaf.to_string().contains("<em>b</em>"));
    assert_eq!(leaf.to_string(), "<p>a <em>b</em></p>\n");

    let txt = mapping(vec![("format", text("txt")), ("value", text("a *b*")), ("other", Node::Null)]);
    let leaf = TypedValue::try_from(&txt).ok().unwrap();
    assert_eq!(leaf.format, Some(ValueFormat::Text));
    assert_eq!(leaf.to_string(), "a *b*");

    let bare = mapping(vec![("value", text("a *b*"))]);
    let leaf = TypedValue::try_from(&bare).ok().unwrap();
    assert_eq!(leaf.format, None);
    assert_eq!(leaf.to_string(), "a *b*");

    let null_format = mapping(vec![("value", text("v")), ("format", Node::Null)]);
    assert_eq!(TypedValue::try_from(&null_format).ok().unwrap().format, None);

    let plain = TypedValue::try_from(&text("s")).ok().unwrap();
    assert_eq!((plain.value.as_str(), plain.format), ("s", Some(ValueFormat::Text)));
}

#[test]
fn typed_value_errors() {
    let xml = mapping(vec![("value", text("v")), ("format", text("xml"))]);
    assert_eq!(TypedValue::try_from(&xml).err(), Some(TypedValueError::UnknownFormat));
    let number = mapping(vec![("value", text("v")), ("format", Node::Bool(true))]);
    assert_eq!(TypedValue::try_from(&number).err(), Some(TypedValueError::UnknownFormat));
    let nested = mapping(vec![("value", mapping(vec![("x", text("y"))]))]);
    assert_eq!(TypedValue::try_from(&nested).err(), Some(TypedValueError::NotTyped));
    let other = mapping(vec![("format", text("md"))]);
    assert_eq!(TypedValue::try_from(&other).err(), Some(TypedValueError::NotTyped));
    assert_eq!(TypedValue::try_from(&Node::Null).err(), Some(TypedValueError::NotTyped));
    assert_eq!(TypedValue::try_from(&Node::Bool(true)).err(), Some(TypedValueError::NotTyped));
}

#[test]
fn strikethrough_is_rendered() {
    let leaf = TypedValue { value: "~~gone~~".to_string(), format: Some(ValueFormat::Markdown) };
    assert_eq!(leaf.to_string(), "<p><del>gone</del></p>\n");
}

#[test]
fn entries_are_found_by_their_first_string_key() {
    let entries = vec![
        (Node::Bool(true), text("no")),
        (text("k"), text("first")),
        (text("k"), text("second")),
    ];
    match find_entry(&entries, "k") {
        Some(Node::String(s)) => assert_eq!(s, "first"),
        _ => panic!("the entry is there"),
    }
    assert!(find_entry(&entries, "true").is_none());
    assert!(find_entry(&entries, "missing").is_none());
}

#[test]
fn traversal_yields_leaves_in_document_order() {
    let root = vec![
        (text("site"), mapping(vec![("name", text("News")), ("on", Node::Bool(false))])),
        (Node::Number("3".to_string()), text("skipped")),
        (text("n"), Node::Number("1.5".to_string())),
        (text("list"), Node::Sequence(vec![text("x")])),
        (text("nothing"), Node::Null),
        (text("bad"), mapping(vec![("value", text("v")), ("format", text("?"))])),
        (text("deep"), mapping(vec![("a", mapping(vec![("b", text("c"))]))])),
    ];
    let mut iter = ValueIter::new(&root);
    let mut seen = Vec::new();
    while let Some(item) = iter.next() {
        seen.push(match item {
            Ok(pair) => format!("{}={}", pair.path.join("."), pair.value),
            Err(e) => format!("!{}", e.path.join(".")),
        });
    }
    assert_eq!(seen, vec!["site.name=News", "site.on=false", "n=1.5", "!bad", "deep.a.b=c"]);
    assert!(iter.next().is_none());
}

#[test]
fn flattening_twice_gives_the_same_sorted_pairs() {
    let locales = Locales::new(vec![
        (text("site"), mapping(vec![("name", text("News"))])),
        (text("nav"), mapping(vec![("submit", text("Submit")), ("ask", text("Ask"))])),
    ]);
    let one = locales.iter().ok().unwrap();
    let two = locales.iter().ok().unwrap();
    assert_eq!(shown(&one), shown(&two));
    assert_eq!(
        shown(&one),
        vec![
            ("nav.ask".to_string(), "Ask".to_string(), Source::Own),
            ("nav.submit".to_string(), "Submit".to_string(), Source::Own),
            ("site.name".to_string(), "News".to_string(), Source::Own),
        ]
    );
}

#[test]
fn flattening_reports_the_first_unknown_format() {
    let locales = Locales::new(vec![
        (text("a"), text("fine")),
        (text("b"), mapping(vec![("c", mapping(vec![("value", text("v")), ("format", text("xml"))]))])),
        (text("d"), mapping(vec![("value", text("v")), ("format", text("html"))])),
    ]);
    assert_eq!(locales.iter().err().unwrap().path, path(&["b", "c"]));
}

#[test]
fn instance_pieces() {
    assert_eq!(count_common_prefix(&path(&["a", "b", "c"]), &path(&["a", "b", "d"])), 2);
    assert_eq!(count_common_prefix(&path(&["a"]), &path(&["b"])), 0);
    assert_eq!(count_common_prefix(&path(&["a"]), &path(&["a", "b"])), 1);
    let mut closers = String::new();
    push_closers(&mut closers, 3, 1);
    assert_eq!(closers, "            },\n        },\n");
    let mut none = String::new();
    push_closers(&mut none, 1, 1);
    assert_eq!(none, "");
    let mut openers = String::new();
    push_openers(
        &mut openers,
        &named(&["site", "nav", "leaf"], &["f1", "f2", "f3"], &["R1", "R2", "R3"]),
        0,
        2,
    );
    assert_eq!(openers, "    f1: StringsR1{\n        f2: StringsR1R2{\n");
    let mut leaf = String::new();
    push_leaf_line(&mut leaf, &entry(&["site", "name"], &["f1", "f2"], &["R1", "R2"], "News", Source::Own));
    assert_eq!(leaf, "        f2: r################\"News\"################,\n");
    let mut reference = String::new();
    push_leaf_line(&mut reference, &entry(&["site", "name"], &["f1", "f2"], &["R1", "R2"], "", Source::Default));
    assert_eq!(reference, "        f2: STRINGS_DEFAULT.f1.f2,\n");
    let entries = vec![simple(&["a", "b"], "1"), simple(&["c"], "2")];
    let mut second = String::new();
    push_entry(&mut second, &entries, 1);
    assert_eq!(second, "    },\n    c: r################\"2\"################,\n");
}

#[test]
fn instance_closes_and_reopens_between_branches() {
    let entries = vec![
        simple(&["a", "b", "c"], "1"),
        simple(&["a", "d"], "2"),
        simple(&["e", "f", "g"], "3"),
        simple(&["h"], "4"),
    ];
    let mut w = String::new();
    generate_locales_strings_instance(&mut w, "STRINGS_X", &entries);
    let expected = "
const STRINGS_X: Strings = Strings{
    a: StringsA{
        b: StringsAB{
            c: r################\"1\"################,
        },
        d: r################\"2\"################,
    },
    e: StringsE{
        f: StringsEF{
            g: r################\"3\"################,
        },
    },
    h: r################\"4\"################,
};
";
    assert_eq!(w, expected);
}

#[test]
fn instance_of_no_pairs() {
    let mut w = String::from("// head");
    generate_locales_strings_instance(&mut w, "STRINGS_DEFAULT", &vec![]);
    assert_eq!(w, "// head\nconst STRINGS_DEFAULT: Strings = Strings{\n};\n");
}

fn simple_path(segments: &[&str]) -> NamedPath {
    simple(segments, "").names
}

#[test]
fn records_mirror_the_paths() {
    let names = vec![
        simple_path(&["a", "b", "c"]),
        simple_path(&["a", "b", "d"]),
        simple_path(&["a", "e"]),
        simple_path(&["f"]),
        simple_path(&["g", "b", "c"]),
    ];
    assert_eq!(find_deepest(&names), 3);
    assert!(same_prefix(&names[0].path, &names[1].path, 2));
    assert!(!same_prefix(&names[0].path, &names[4].path, 1));
    let mut w = String::new();
    generate_locales_strings_struct(&mut w, &names);
    let expected = "pub struct Strings {
    pub a: StringsA,
    pub f: &'static str,
    pub g: StringsG,
}

pub struct StringsA {
    pub b: StringsAB,
    pub e: &'static str,
}

pub struct StringsG {
    pub b: StringsGB,
}

pub struct StringsAB {
    pub c: &'static str,
    pub d: &'static str,
}

pub struct StringsGB {
    pub c: &'static str,
}
";
    assert_eq!(w, expected);
}

#[test]
fn records_are_written_from_the_names_given() {
    let names = vec![named(&["k", "l"], &["field_k", "field_l"], &["Kk", "Ll"])];
    let mut w = String::new();
    generate_locales_strings_struct(&mut w, &names);
    assert_eq!(
        w,
        "pub struct Strings {\n    pub field_k: StringsKk,\n}\n\npub struct StringsKk {\n    pub field_l: &'static str,\n}\n"
    );
}

#[test]
fn records_of_no_paths() {
    let mut w = String::new();
    generate_locales_strings_struct(&mut w, &vec![]);
    assert_eq!(w, "pub struct Strings {\n}\n");
}

#[test]
fn constants_of_all_locales_share_their_shape() {
    let default = || {
        vec![own(&["nav", "ask"], "Ask"), own(&["nav", "submit"], "Submit"), own(&["site", "name"], "News")]
    };
    let complete = merge(vec![own(&["nav", "submit"], "Verstuur"), own(&["zoo"], "x")], default());
    let blank = |pairs: &Vec<StringValuePathPair>| {
        let mut entries = name_pairs(pairs).unwrap();
        for entry in entries.iter_mut() {
            entry.value = String::new();
            entry.source = Source::Own;
        }
        let mut text = String::new();
        generate_locales_strings_instance(&mut text, "X", &entries);
        text
    };
    assert_eq!(blank(&complete), blank(&default()));
    let paths = |pairs: &Vec<StringValuePathPair>| -> Vec<String> {
        pairs.iter().map(|p| p.path.join(".")).collect()
    };
    assert_eq!(paths(&complete), paths(&default()));
}

#[test]
fn leaves_of_a_loaded_locale_have_paths_of_their_own() {
    let locales = match Locales::load(
        "l",
        "en",
        Some("a:\n  b: 1\n  c:\n    d: 2\ne: 3\na.b: 4\n"),
    ) {
        Ok(locales) => locales,
        Err(_) => panic!("the document must load"),
    };
    let pairs = locales.iter().ok().unwrap();
    assert_eq!(pairs.len(), 4);
    for pair in &pairs {
        assert!(!pair.path.is_empty());
    }
    for i in 1..pairs.len() {
        assert_eq!(pairs[i - 1].compare(&pairs[i]), Rank::Before);
    }
}
