use plabayo_news::i18n::codegen::locales::{generate_locales, GenerateError};
use plabayo_news::i18n::codegen::Artifact;
use plabayo_news::i18n::config::{I18n, Pages};
use plabayo_news::i18n::codegen::locales::{
    generate_locales_enum, name_locale, name_locales, LocaleName,
};
use plabayo_news::i18n::codegen::pages::{
    generate_dynamic_pages, generate_pages, generate_pages_imports, generate_pages_mod_docs,
    generate_static_pages, get_templates, name_page, name_pages, select, PageName,
};
use plabayo_news::i18n::locales::{locale_file_path, LoadFailure, Locales, Storage};
use plabayo_news::i18n::value::Node;
use plabayo_news::i18n::{build, BuildError};

fn config(locales: &[&str]) -> I18n {
    I18n {
        locales: locales.iter().map(|l| l.to_string()).collect(),
        path: "locales".to_string(),
        out: "src/site/l18n".to_string(),
        pages: Pages {
            path: "site/templates/pages".to_string(),
            not_found: "not_found".to_string(),
            templates_dir: "pages".to_string(),
            static_pages: vec!["not_found".to_string(), "security".to_string()],
        },
    }
}

fn documents(texts: &[Option<&str>]) -> Vec<Option<String>> {
    texts.iter().map(|t| t.map(|s| s.to_string())).collect()
}

fn stems() -> Vec<String> {
    vec!["security".to_string(), "not_found".to_string(), "items".to_string()]
}

const EN: &str = "site:\n  name: News\nnav:\n  submit: Submit\n";
const NL: &str = "site:\n  name: Nieuws\n";

fn built(locales: &[&str], texts: &[Option<&str>]) -> Result<Vec<Artifact>, BuildError> {
    build(&config(locales), &documents(texts), &stems())
}

#[test]
fn scenario_default_and_partial_locale() {
    let artifacts = match built(&["en", "nl"], &[Some(EN), Some(NL)]) {
        Ok(artifacts) => artifacts,
        Err(_) => panic!("the build failed"),
    };
    assert_eq!(artifacts.len(), 2);
    assert_eq!(artifacts[0].path, "src/site/l18n/locales.rs");
    assert_eq!(artifacts[1].path, "src/site/l18n/pages/generated.rs");
    let expected = "pub enum Locales {
    En,
    Nl,
}

impl From<&str> for Locales {
    fn from(s: &str) -> Self {
        match s.to_lowercase().trim() {
            \"en\" => Self::En,
            \"nl\" => Self::Nl,
            _ => DEFAULT_LOCALE,
        }
    }
}

pub const DEFAULT_LOCALE: Locales = Locales::En;

pub struct Strings {
    pub nav: StringsNav,
    pub site: StringsSite,
}

pub struct StringsNav {
    pub submit: &'static str,
}

pub struct StringsSite {
    pub name: &'static str,
}

const STRINGS_DEFAULT: Strings = Strings{
    nav: StringsNav{
        submit: r################\"Submit\"################,
    },
    site: StringsSite{
        name: r################\"News\"################,
    },
};

const STRINGS_NL: Strings = Strings{
    nav: StringsNav{
        submit: STRINGS_DEFAULT.nav.submit,
    },
    site: StringsSite{
        name: r################\"Nieuws\"################,
    },
};
";
    assert_eq!(artifacts[0].text, expected);
}

#[test]
fn scenario_missing_locale_file() {
    match built(&["en", "nl"], &[Some(EN), None]) {
        Err(BuildError::Load(e)) => {
            assert_eq!(e.path, "locales/nl.yml");
            assert!(matches!(e.failure, LoadFailure::Unreadable));
        }
        _ => panic!("a locale without a file must fail the build"),
    }
}

#[test]
fn missing_document_entry_counts_as_unreadable() {
    match built(&["en", "nl"], &[Some(EN)]) {
        Err(BuildError::Load(e)) => {
            assert_eq!(e.path, "locales/nl.yml");
            assert!(matches!(e.failure, LoadFailure::Unreadable));
        }
        _ => panic!("a locale without a document must fail the build"),
    }
}

#[test]
fn scenario_unknown_format() {
    let en = "site:\n  name:\n    value: News\n    format: xml\n";
    match built(&["en"], &[Some(en)]) {
        Err(BuildError::Generate(GenerateError::Type { locale, path })) => {
            assert_eq!(locale, "en");
            assert_eq!(path, vec!["site".to_string(), "name".to_string()]);
        }
        _ => panic!("an unknown format must fail the build"),
    }
}

#[test]
fn unknown_format_in_other_locale() {
    let nl = "site:\n  name:\n    value: Nieuws\n    format: 7\n";
    match built(&["en", "nl"], &[Some(EN), Some(nl)]) {
        Err(BuildError::Generate(GenerateError::Type { locale, path })) => {
            assert_eq!(locale, "nl");
            assert_eq!(path, vec!["site".to_string(), "name".to_string()]);
        }
        _ => panic!("an unknown format must fail the build"),
    }
}

#[test]
fn malformed_document() {
    match built(&["en"], &[Some("site: [unclosed")]) {
        Err(BuildError::Load(e)) => {
            assert_eq!(e.path, "locales/en.yml");
            match e.failure {
                LoadFailure::Malformed(message) => assert!(!message.is_empty()),
                _ => panic!("the document is malformed"),
            }
        }
        _ => panic!("a malformed document must fail the build"),
    }
}

#[test]
fn document_that_is_no_mapping() {
    match built(&["en"], &[Some("- a\n- b\n")]) {
        Err(BuildError::Load(e)) => assert!(matches!(e.failure, LoadFailure::NotAMapping)),
        _ => panic!("a sequence at the root must fail the build"),
    }
    match built(&["en"], &[Some("1: one\n")]) {
        Err(BuildError::Load(e)) => assert!(matches!(e.failure, LoadFailure::NotAMapping)),
        _ => panic!("a number as a root key must fail the build"),
    }
}

#[test]
fn no_locales_configured() {
    assert!(matches!(built(&[], &[]), Err(BuildError::NoLocales)));
}

#[test]
fn key_that_is_not_ascii() {
    assert!(matches!(
        built(&["en"], &[Some("caf\u{e9}: x\n")]),
        Err(BuildError::Generate(GenerateError::Identifier))
    ));
}

#[test]
fn locale_that_is_not_ascii() {
    assert!(matches!(
        built(&["\u{e9}n"], &[Some(EN)]),
        Err(BuildError::Generate(GenerateError::Identifier))
    ));
}

#[test]
fn typed_values_and_scalars() {
    let en = "a:\n  value: \"x *y*\"\n  format: md\nb:\n  value: plain\n  format: txt\nc:\n  value: bare\nd: true\ne: 12\nf: ~\ng: [1, 2]\nh:\n  value:\n    deep: leaf\n";
    let storage = match Storage::load("locales", &vec!["en".to_string()], &documents(&[Some(en)])) {
        Ok(storage) => storage,
        Err(_) => panic!("the document must load"),
    };
    let text = match generate_locales(&storage) {
        Ok(text) => text,
        Err(_) => panic!("the module must be generated"),
    };
    assert!(text.contains("    a: r################\"<p>x <em>y</em></p>\n\"################,\n"));
    assert!(text.contains("    b: r################\"plain\"################,\n"));
    assert!(text.contains("    c: r################\"bare\"################,\n"));
    assert!(text.contains("    d: r################\"true\"################,\n"));
    assert!(text.contains("    e: r################\"12\"################,\n"));
    assert!(!text.contains("    f:"));
    assert!(!text.contains("    g:"));
    assert!(text.contains("    h: StringsH{\n        value: StringsHValue{\n            deep: r################\"leaf\"################,\n        },\n    },\n"));
    assert!(text.contains("pub struct StringsHValue {\n    pub deep: &'static str,\n}\n"));
}

#[test]
fn locale_with_extra_key_drops_it() {
    let nl = "extra: x\nsite:\n  name: Nieuws\nzzz: y\n";
    let artifacts = match built(&["en", "nl"], &[Some(EN), Some(nl)]) {
        Ok(artifacts) => artifacts,
        Err(_) => panic!("the build failed"),
    };
    let text = &artifacts[0].text;
    assert!(!text.contains("extra"));
    assert!(!text.contains("zzz"));
    assert!(text.contains("const STRINGS_NL: Strings = Strings{\n    nav: StringsNav{\n        submit: STRINGS_DEFAULT.nav.submit,\n    },\n    site: StringsSite{\n        name: r################\"Nieuws\"################,\n    },\n};\n"));
}

#[test]
fn locales_are_listed_in_name_order() {
    let artifacts = match built(&["nl", "en", "es"], &[Some(NL), Some(NL), Some(NL)]) {
        Ok(artifacts) => artifacts,
        Err(_) => panic!("the build failed"),
    };
    let text = &artifacts[0].text;
    assert!(text.starts_with("pub enum Locales {\n    En,\n    Es,\n    Nl,\n}\n"));
    assert!(text.contains("pub const DEFAULT_LOCALE: Locales = Locales::Nl;\n"));
    let en = text.find("const STRINGS_EN:").unwrap();
    let es = text.find("const STRINGS_ES:").unwrap();
    assert!(en < es);
    assert!(!text.contains("const STRINGS_NL:"));
}

#[test]
fn pages_module() {
    let artifacts = match built(&["en"], &[Some(EN)]) {
        Ok(artifacts) => artifacts,
        Err(_) => panic!("the build failed"),
    };
    let text = &artifacts[1].text;
    assert!(text.starts_with("//! this pages module is"));
    assert!(text.contains("use super::models::{ContentItems};\n\n"));
    assert!(text.contains("        PAGE_SECURITY_ENDPOINT => (HttpResponse::Ok(), PageSecurity::new(page).render()),\n"));
    assert!(!text.contains("PAGE_NOT_FOUND_ENDPOINT"));
    assert!(text.contains("        _ => (HttpResponse::NotFound(), PageNotFound::new(page).render()),\n"));
    assert!(text.contains("const PAGE_SECURITY_ENDPOINT: &str = \"security\";\n\n#[derive(Template)]\n#[template(path = \"pages/security.html\", escape = \"none\")]\nstruct PageSecurity<'a> {\n"));
    assert!(text.contains("#[template(path = \"pages/not_found.html\", escape = \"none\")]\nstruct PageNotFound<'a> {\n"));
    assert!(text.contains("\n#[derive(Template)]\n#[template(path = \"pages/items.html\")]\npub struct PageItems<'a> {\n    site_info: &'a SiteInfo,\n    page: PageState,\n    content: ContentItems,\n}\n"));
    assert!(text.ends_with("        Ok(HttpResponse::Ok().content_type(\"text/html\").body(s))\n    }\n}\n"));
}

#[test]
fn storage_without_its_default_locale() {
    let nl = Locales::new(vec![(Node::String("a".to_string()), Node::String("b".to_string()))]);
    let mut storage = Storage::new("en".to_string());
    storage.insert("nl".to_string(), nl);
    assert_eq!(storage.default_locale(), "en");
    assert_eq!(storage.all_locales(), vec!["nl"]);
    assert!(storage.get_default().is_none());
    assert!(storage.get("nl").is_some());
    match generate_locales(&storage) {
        Err(GenerateError::Missing { locale }) => assert_eq!(locale, "en"),
        _ => panic!("the default locale has no strings"),
    }
}

#[test]
fn storage_keeps_the_last_document_of_a_locale() {
    let storage = match Storage::load(
        "l",
        &vec!["en".to_string(), "nl".to_string(), "en".to_string()],
        &documents(&[Some("a: first\n"), Some("a: tweede\n"), Some("a: last\n")]),
    ) {
        Ok(storage) => storage,
        Err(_) => panic!("the documents must load"),
    };
    assert_eq!(storage.default_locale(), "en");
    assert_eq!(storage.all_locales(), vec!["en", "nl"]);
    let pairs = storage.get_default().unwrap().iter().ok().unwrap();
    assert_eq!(pairs[0].value, "last");
    assert!(storage.get("es").is_none());
    assert_eq!(locale_file_path("some/dir", "nl"), "some/dir/nl.yml");
}

#[test]
fn storage_holds_each_locale_once() {
    let one = |value: &str| {
        Locales::new(vec![(Node::String("k".to_string()), Node::String(value.to_string()))])
    };
    let mut storage = Storage::new("b".to_string());
    assert!(storage.all_locales().is_empty());
    storage.insert("b".to_string(), one("1"));
    storage.insert("a".to_string(), one("2"));
    storage.insert("b".to_string(), one("3"));
    assert_eq!(storage.all_locales(), vec!["a", "b"]);
    assert_eq!(storage.get("b").unwrap().iter().ok().unwrap()[0].value, "3");
    assert_eq!(storage.get("a").unwrap().iter().ok().unwrap()[0].value, "2");
    assert_eq!(storage.get_default().unwrap().iter().ok().unwrap()[0].value, "3");
}

#[test]
fn documents_are_read_as_yaml() {
    let locales = match Locales::load("l", "en", Some("b:\n  y: 1.50\n  x: [a]\na: \"q\"\n")) {
        Ok(locales) => locales,
        Err(_) => panic!("the document must load"),
    };
    let pairs = locales.iter().ok().unwrap();
    let shown: Vec<String> =
        pairs.iter().map(|p| format!("{}={}", p.path.join("."), p.value)).collect();
    assert_eq!(shown, vec!["a=q", "b.y=1.5"]);
    assert!(matches!(
        Locales::from_node(Node::Null).err(),
        Some(LoadFailure::NotAMapping)
    ));
    assert!(matches!(
        Locales::from_node(Node::Mapping(vec![(Node::Bool(true), Node::Null)])).err(),
        Some(LoadFailure::NotAMapping)
    ));
    assert!(Locales::from_node(Node::Mapping(vec![])).is_ok());
}

fn locale(name: &str, variant: &str, key: &str, constant: &str) -> LocaleName {
    LocaleName {
        name: name.to_string(),
        variant: variant.to_string(),
        key: key.to_string(),
        constant: constant.to_string(),
    }
}

#[test]
fn locales_are_named() {
    let named = name_locale("pt_BR");
    assert_eq!(
        (named.name.as_str(), named.variant.as_str(), named.key.as_str(), named.constant.as_str()),
        ("pt_BR", "PtBr", "pt_br", "PT_BR")
    );
    let all = name_locales(&vec!["en".to_string(), " nl".to_string()]).unwrap();
    assert_eq!(all.len(), 2);
    assert_eq!((all[1].variant.as_str(), all[1].key.as_str()), ("Nl", "nl"));
    assert!(name_locales(&vec!["en".to_string(), "\u{e9}".to_string()]).is_none());
}

#[test]
fn locale_tag_is_written_from_the_names_given() {
    let mut w = String::from("// tag\n");
    generate_locales_enum(
        &mut w,
        &vec![locale("a", "VariantA", "key a", "A"), locale("b", "VariantB", "key b", "B")],
        &locale("b", "TheDefault", "unused", "unused"),
    );
    let expected = "// tag
pub enum Locales {
    VariantA,
    VariantB,
}

impl From<&str> for Locales {
    fn from(s: &str) -> Self {
        match s.to_lowercase().trim() {
            \"key a\" => Self::VariantA,
            \"key b\" => Self::VariantB,
            _ => DEFAULT_LOCALE,
        }
    }
}

pub const DEFAULT_LOCALE: Locales = Locales::TheDefault;

";
    assert_eq!(w, expected);
}

fn page(name: &str, pascal: &str, snake: &str, screaming: &str) -> PageName {
    PageName {
        name: name.to_string(),
        pascal: pascal.to_string(),
        snake: snake.to_string(),
        screaming: screaming.to_string(),
    }
}

#[test]
fn pages_are_named_and_chosen() {
    let named = name_page("not-found");
    assert_eq!(
        (named.name.as_str(), named.pascal.as_str(), named.snake.as_str(), named.screaming.as_str()),
        ("not-found", "NotFound", "not_found", "NOT_FOUND")
    );
    assert_eq!(name_pages(&vec!["a".to_string(), "bC".to_string()])[1].snake, "b_c");
    let stems = vec!["b".to_string(), "nf".to_string(), "a".to_string(), "nf".to_string()];
    let (not_found, templates) = get_templates(&stems, "nf");
    assert_eq!(not_found, "nf");
    assert_eq!(templates, vec!["nf", "b", "a"]);
    let configured = vec!["a".to_string(), "zzz".to_string()];
    assert_eq!(select(&templates, &configured, true), vec!["a"]);
    assert_eq!(select(&templates, &configured, false), vec!["nf", "b"]);
}

#[test]
fn pages_text_is_written_from_the_names_given() {
    let mut docs = String::new();
    generate_pages_mod_docs(&mut docs);
    assert_eq!(docs.lines().count(), 4);
    assert!(docs.ends_with("remote repo.\n\n"));

    let mut imports = String::new();
    generate_pages_imports(&mut imports, &vec![page("a", "Aa", "-", "-"), page("b", "Bb", "-", "-")]);
    assert!(imports.ends_with("use super::models::{ContentAa, ContentBb};\n\n"));
    let mut none = String::new();
    generate_pages_imports(&mut none, &vec![]);
    assert!(none.ends_with("use super::models::{};\n\n"));

    let mut statics = String::new();
    generate_static_pages(
        &mut statics,
        "dir",
        &vec![page("nf", "Nf", "nf_snake", "NF_UP"), page("p", "Pp", "p_snake", "P_UP")],
        &page("nf", "Fallback", "-", "-"),
    );
    let expected = "//-------------------------------------
//------- STATIC PAGES
//-------------------------------------

pub fn static_response(endpoint: &str, page: PageState) -> Result<HttpResponse> {
    let (mut response, render_result) = match endpoint {
        PAGE_P_UP_ENDPOINT => (HttpResponse::Ok(), PagePp::new(page).render()),
        _ => (HttpResponse::NotFound(), PageFallback::new(page).render()),
    };
    let s = render_result.map_err(ErrorInternalServerError)?;
    Ok(response.content_type(\"text/html\").body(s))
}

#[derive(Template)]
#[template(path = \"dir/nf.html\", escape = \"none\")]
struct PageNf<'a> {
    site_info: &'a SiteInfo,
    page: PageState,
}

impl<'a> PageNf<'a> {
    pub fn new(page: PageState) -> PageNf<'a> {
        PageNf {
            site_info: &SITE_INFO,
            page,
        }
    }
}

const PAGE_P_UP_ENDPOINT: &str = \"p_snake\";

#[derive(Template)]
#[template(path = \"dir/p.html\", escape = \"none\")]
struct PagePp<'a> {
    site_info: &'a SiteInfo,
    page: PageState,
}

impl<'a> PagePp<'a> {
    pub fn new(page: PageState) -> PagePp<'a> {
        PagePp {
            site_info: &SITE_INFO,
            page,
        }
    }
}

";
    assert_eq!(statics, expected);

    let mut dynamics = String::new();
    generate_dynamic_pages(&mut dynamics, "dir", &vec![page("items", "Items", "-", "-")]);
    let expected = "//-------------------------------------
//------- DYNAMIC PAGES
//-------------------------------------

#[derive(Template)]
#[template(path = \"dir/items.html\")]
pub struct PageItems<'a> {
    site_info: &'a SiteInfo,
    page: PageState,
    content: ContentItems,
}

impl<'a> PageItems<'a> {
    pub fn new_response(page: PageState, content: ContentItems) -> Result<HttpResponse> {
        let page = PageItems {
            site_info: &SITE_INFO,
            page,
            content,
        };
        let s = page.render().map_err(ErrorInternalServerError)?;
        Ok(HttpResponse::Ok().content_type(\"text/html\").body(s))
    }
}
";
    assert_eq!(dynamics, expected);
}

#[test]
fn pages_with_a_name_that_is_not_ascii() {
    let cfg = config(&["en"]);
    assert!(generate_pages(&cfg.pages, &vec!["caf\u{e9}".to_string()]).is_none());
    assert!(generate_pages(&cfg.pages, &vec!["cafe".to_string()]).is_some());
    assert!(matches!(
        build(&cfg, &documents(&[Some(EN)]), &vec!["\u{fc}ber".to_string()]),
        Err(BuildError::Generate(GenerateError::Identifier))
    ));
}
