//! The generated pages module: one template type for each page.

use crate::casing::{cased, to_case, CaseStyle};
use crate::i18n::config::Pages;
use crate::i18n::names::{ascii_path, is_ascii_path};
use crate::site::params::has_text;
use crate::text::{compare_text, lemma_text_rank_same, sort_texts, sorted_texts, Rank};
use vstd::prelude::*;
use vstd::utf8::is_ascii_chars;

verus! {

/// Those of the first `n` texts of `s` that are among `among`, or, where
/// `members` is false, those that are not; in the order of `s`.
pub open spec fn selected(s: Seq<Seq<char>>, among: Seq<Seq<char>>, members: bool, n: nat) -> Seq<
    Seq<char>,
>
    decreases n,
{
    if n == 0 || n > s.len() {
        Seq::empty()
    } else if among.contains(s[n - 1]) == members {
        selected(s, among, members, (n - 1) as nat).push(s[n - 1])
    } else {
        selected(s, among, members, (n - 1) as nat)
    }
}

/// The pages to generate: the page `not_found` first, then the pages that
/// the template directory holds, but for `not_found` itself.
pub open spec fn templates_of(stems: Seq<Seq<char>>, not_found: Seq<char>) -> Seq<Seq<char>> {
    seq![not_found] + selected(stems, seq![not_found], false, stems.len())
}

/// Picks from `list` the texts that are among `among`, or, where `members`
/// is false, those that are not.
pub fn select(list: &Vec<String>, among: &Vec<String>, members: bool) -> (r: Vec<String>)
    ensures
        r.deep_view() == selected(list.deep_view(), among.deep_view(), members, list.len() as nat),
{
    let ghost lv = list.deep_view();
    let ghost av = among.deep_view();
    let mut out: Vec<String> = Vec::new();
    let mut i: usize = 0;
    assert(out.deep_view() =~= selected(lv, av, members, 0));
    while i < list.len()
        invariant
            i <= list.len(),
            lv == list.deep_view(),
            av == among.deep_view(),
            out.deep_view() == selected(lv, av, members, i as nat),
        decreases list.len() - i,
    {
        let ghost before = out.deep_view();
        assert(lv[i as int] == list@[i as int]@);
        if has_text(among, list[i].as_str()) == members {
            out.push(list[i].clone());
            assert(out.deep_view() =~= before.push(lv[i as int]));
        }
        i = i + 1;
    }
    out
}

/// The pages to generate, `not_found` first: the page itself, and the list.
pub fn get_templates(stems: &Vec<String>, not_found: &str) -> (r: (String, Vec<String>))
    ensures
        r.0@ == not_found@,
        r.1.deep_view() == templates_of(stems.deep_view(), not_found@),
{
    let mut only: Vec<String> = Vec::new();
    only.push(not_found.to_owned());
    assert(only.deep_view() =~= seq![not_found@]);
    let mut others = select(stems, &only, false);
    let ghost ov = others.deep_view();
    let mut templates: Vec<String> = Vec::new();
    templates.push(not_found.to_owned());
    templates.append(&mut others);
    assert(templates.deep_view() =~= seq![not_found@] + ov);
    (not_found.to_owned(), templates)
}

/// A page with the names that it goes by in the generated source.
pub struct PageName {
    /// The page as its template file is named.
    pub name: String,
    /// What the page adds to the names of its types.
    pub pascal: String,
    /// The endpoint of the page.
    pub snake: String,
    /// What the page adds to the name of its endpoint constant.
    pub screaming: String,
}

/// The mathematical value of a [`PageName`].
pub ghost struct PageNameView {
    pub name: Seq<char>,
    pub pascal: Seq<char>,
    pub snake: Seq<char>,
    pub screaming: Seq<char>,
}

impl View for PageName {
    type V = PageNameView;

    open spec fn view(&self) -> PageNameView {
        PageNameView {
            name: self.name@,
            pascal: self.pascal@,
            snake: self.snake@,
            screaming: self.screaming@,
        }
    }
}

impl DeepView for PageName {
    type V = PageNameView;

    open spec fn deep_view(&self) -> PageNameView {
        self.view()
    }
}

/// The names that the page `name` goes by: the name in Pascal case, in
/// snake case and in screaming snake case.
pub open spec fn named_page(name: Seq<char>) -> PageNameView {
    PageNameView {
        name,
        pascal: cased(name, CaseStyle::Pascal),
        snake: cased(name, CaseStyle::Snake),
        screaming: cased(name, CaseStyle::ScreamingSnake),
    }
}

/// The names that the pages `names` go by.
pub open spec fn named_pages(names: Seq<Seq<char>>) -> Seq<PageNameView> {
    Seq::new(names.len(), |i: int| named_page(names[i]))
}

/// Names the page `name`.
pub fn name_page(name: &str) -> (r: PageName)
    requires
        is_ascii_chars(name@),
    ensures
        r@ == named_page(name@),
{
    PageName {
        name: name.to_owned(),
        pascal: to_case(name, CaseStyle::Pascal),
        snake: to_case(name, CaseStyle::Snake),
        screaming: to_case(name, CaseStyle::ScreamingSnake),
    }
}

/// Names the pages `names`.
pub fn name_pages(names: &Vec<String>) -> (r: Vec<PageName>)
    requires
        ascii_path(names.deep_view()),
    ensures
        r.deep_view() == named_pages(names.deep_view()),
{
    let ghost nv = names.deep_view();
    let mut out: Vec<PageName> = Vec::new();
    let mut i: usize = 0;
    while i < names.len()
        invariant
            i <= names.len(),
            nv == names.deep_view(),
            ascii_path(nv),
            out.len() == i,
            forall|k: int| 0 <= k < i ==> (#[trigger] out@[k])@ == named_page(nv[k]),
        decreases names.len() - i,
    {
        assert(nv[i as int] == names@[i as int]@);
        assert(is_ascii_chars(nv[i as int]));
        out.push(name_page(names[i].as_str()));
        i = i + 1;
    }
    assert(out.deep_view() =~= named_pages(nv));
    out
}

/// The documentation at the head of the pages module.
pub open spec fn docs_text() -> Seq<char> {
    "//! this pages module is auto-generated by the plabayo-news-builder::i18n crate.\n//! DO NOT MODIFY MANUALLY AS IT WILL BE OVERWRITTEN NEXT TIME YOU BUILD USING CARGO!!!\n//! ... Best to also not check in this file into remote repo.\n\n"@
}

/// Appends the documentation of the pages module to `w`.
pub fn generate_pages_mod_docs(w: &mut String)
    ensures
        final(w)@ == old(w)@ + docs_text(),
{
    w.append(
        "//! this pages module is auto-generated by the plabayo-news-builder::i18n crate.\n//! DO NOT MODIFY MANUALLY AS IT WILL BE OVERWRITTEN NEXT TIME YOU BUILD USING CARGO!!!\n//! ... Best to also not check in this file into remote repo.\n\n",
    );
}

/// The names of the content types of the first `n` pages, with commas
/// between them.
pub open spec fn content_names(pages: Seq<PageNameView>, n: nat) -> Seq<char>
    decreases n,
{
    if n == 0 || n > pages.len() {
        Seq::empty()
    } else if n == 1 {
        "Content"@ + pages[0].pascal
    } else {
        content_names(pages, (n - 1) as nat) + ", "@ + "Content"@ + pages[n - 1].pascal
    }
}

/// The imports of the pages module; the content types of the dynamic pages
/// are among them.
pub open spec fn imports_text(dynamic_pages: Seq<PageNameView>) -> Seq<char> {
    "use actix_web::error::ErrorInternalServerError;\nuse actix_web::{HttpResponse, Result};\nuse askama::Template;\n\nuse crate::site::pages::PageState;\nuse crate::site::{SiteInfo, SITE_INFO};\n\nuse super::models::{"@
        + content_names(dynamic_pages, dynamic_pages.len()) + "};\n\n"@
}

/// Appends the imports of the pages module to `w`.
pub fn generate_pages_imports(w: &mut String, dynamic_pages: &Vec<PageName>)
    ensures
        final(w)@ == old(w)@ + imports_text(dynamic_pages.deep_view()),
{
    let ghost pv = dynamic_pages.deep_view();
    w.append(
        "use actix_web::error::ErrorInternalServerError;\nuse actix_web::{HttpResponse, Result};\nuse askama::Template;\n\nuse crate::site::pages::PageState;\nuse crate::site::{SiteInfo, SITE_INFO};\n\nuse super::models::{",
    );
    let ghost head = w@;
    let mut i: usize = 0;
    assert(w@ =~= head + content_names(pv, 0));
    while i < dynamic_pages.len()
        invariant
            i <= dynamic_pages.len(),
            pv == dynamic_pages.deep_view(),
            w@ == head + content_names(pv, i as nat),
        decreases dynamic_pages.len() - i,
    {
        assert(pv[i as int] == dynamic_pages@[i as int]@);
        if i > 0 {
            w.append(", ");
        }
        w.append("Content");
        w.append(dynamic_pages[i].pascal.as_str());
        assert(w@ =~= head + content_names(pv, (i + 1) as nat));
        i = i + 1;
    }
    w.append("};\n\n");
    assert(w@ =~= old(w)@ + imports_text(pv));
}

/// The arm that serves the static page `page`.
pub open spec fn static_arm(page: PageNameView) -> Seq<char> {
    "        PAGE_"@ + page.screaming + "_ENDPOINT => (HttpResponse::Ok(), Page"@ + page.pascal
        + "::new(page).render()),\n"@
}

/// The arms of the first `n` static pages, but for the page `not_found`.
pub open spec fn static_arms(pages: Seq<PageNameView>, not_found: Seq<char>, n: nat) -> Seq<char>
    decreases n,
{
    if n == 0 || n > pages.len() {
        Seq::empty()
    } else if pages[n - 1].name == not_found {
        static_arms(pages, not_found, (n - 1) as nat)
    } else {
        static_arms(pages, not_found, (n - 1) as nat) + static_arm(pages[n - 1])
    }
}

/// The constant that names the endpoint of the static page `page`.
pub open spec fn endpoint_const(page: PageNameView) -> Seq<char> {
    "const PAGE_"@ + page.screaming + "_ENDPOINT: &str = \""@ + page.snake + "\";\n\n"@
}

/// The template type of the static page `page`, with its constructor.
pub open spec fn static_type(templates_dir: Seq<char>, page: PageNameView) -> Seq<char> {
    "#[derive(Template)]\n#[template(path = \""@ + templates_dir + "/"@ + page.name
        + ".html\", escape = \"none\")]\nstruct Page"@ + page.pascal
        + "<'a> {\n    site_info: &'a SiteInfo,\n    page: PageState,\n}\n\nimpl<'a> Page"@
        + page.pascal + "<'a> {\n    pub fn new(page: PageState) -> Page"@ + page.pascal
        + "<'a> {\n        Page"@ + page.pascal
        + " {\n            site_info: &SITE_INFO,\n            page,\n        }\n    }\n}\n\n"@
}

/// The endpoint constants and template types of the first `n` static pages;
/// the page `not_found` has a type and no endpoint.
pub open spec fn static_types(
    templates_dir: Seq<char>,
    pages: Seq<PageNameView>,
    not_found: Seq<char>,
    n: nat,
) -> Seq<char>
    decreases n,
{
    if n == 0 || n > pages.len() {
        Seq::empty()
    } else {
        static_types(templates_dir, pages, not_found, (n - 1) as nat) + (if pages[n - 1].name
            == not_found {
            Seq::empty()
        } else {
            endpoint_const(pages[n - 1])
        }) + static_type(templates_dir, pages[n - 1])
    }
}

/// The static pages: the function that serves them by endpoint, with
/// `not_found` for every endpoint that is not known, then their constants and
/// types.
pub open spec fn static_pages_text(
    templates_dir: Seq<char>,
    pages: Seq<PageNameView>,
    not_found: PageNameView,
) -> Seq<char> {
    "//-------------------------------------\n//------- STATIC PAGES\n//-------------------------------------\n\n"@
        + "pub fn static_response(endpoint: &str, page: PageState) -> Result<HttpResponse> {\n    let (mut response, render_result) = match endpoint {\n"@
        + static_arms(pages, not_found.name, pages.len())
        + "        _ => (HttpResponse::NotFound(), Page"@ + not_found.pascal
        + "::new(page).render()),\n"@
        + "    };\n    let s = render_result.map_err(ErrorInternalServerError)?;\n    Ok(response.content_type(\"text/html\").body(s))\n}\n\n"@
        + static_types(templates_dir, pages, not_found.name, pages.len())
}

/// Appends the template type of the static page `page` to `w`.
fn push_static_type(w: &mut String, templates_dir: &str, page: &PageName)
    ensures
        final(w)@ == old(w)@ + static_type(templates_dir@, page@),
{
    w.append("#[derive(Template)]\n#[template(path = \"");
    w.append(templates_dir);
    w.append("/");
    w.append(page.name.as_str());
    w.append(".html\", escape = \"none\")]\nstruct Page");
    w.append(page.pascal.as_str());
    w.append("<'a> {\n    site_info: &'a SiteInfo,\n    page: PageState,\n}\n\nimpl<'a> Page");
    w.append(page.pascal.as_str());
    w.append("<'a> {\n    pub fn new(page: PageState) -> Page");
    w.append(page.pascal.as_str());
    w.append("<'a> {\n        Page");
    w.append(page.pascal.as_str());
    w.append(" {\n            site_info: &SITE_INFO,\n            page,\n        }\n    }\n}\n\n");
    assert(w@ =~= old(w)@ + static_type(templates_dir@, page@));
}

/// Appends the arms of the static pages to `w`.
fn push_static_arms(w: &mut String, pages: &Vec<PageName>, not_found: &str)
    ensures
        final(w)@ == old(w)@ + static_arms(pages.deep_view(), not_found@, pages.len() as nat),
{
    let ghost pv = pages.deep_view();
    let mut i: usize = 0;
    assert(w@ =~= old(w)@ + static_arms(pv, not_found@, 0));
    while i < pages.len()
        invariant
            i <= pages.len(),
            pv == pages.deep_view(),
            w@ == old(w)@ + static_arms(pv, not_found@, i as nat),
        decreases pages.len() - i,
    {
        assert(pv[i as int] == pages@[i as int]@);
        proof {
            lemma_text_rank_same(pv[i as int].name, not_found@);
        }
        match compare_text(pages[i].name.as_str(), not_found) {
            Rank::Same => {},
            _ => {
                w.append("        PAGE_");
                w.append(pages[i].screaming.as_str());
                w.append("_ENDPOINT => (HttpResponse::Ok(), Page");
                w.append(pages[i].pascal.as_str());
                w.append("::new(page).render()),\n");
                assert(w@ =~= old(w)@ + static_arms(pv, not_found@, (i + 1) as nat));
            },
        }
        i = i + 1;
    }
}

/// Appends the endpoint constants and template types of the static pages to
/// `w`.
fn push_static_types(w: &mut String, templates_dir: &str, pages: &Vec<PageName>, not_found: &str)
    ensures
        final(w)@ == old(w)@ + static_types(
            templates_dir@,
            pages.deep_view(),
            not_found@,
            pages.len() as nat,
        ),
{
    let ghost pv = pages.deep_view();
    let mut j: usize = 0;
    assert(w@ =~= old(w)@ + static_types(templates_dir@, pv, not_found@, 0));
    while j < pages.len()
        invariant
            j <= pages.len(),
            pv == pages.deep_view(),
            w@ == old(w)@ + static_types(templates_dir@, pv, not_found@, j as nat),
        decreases pages.len() - j,
    {
        let ghost before = w@;
        assert(pv[j as int] == pages@[j as int]@);
        proof {
            lemma_text_rank_same(pv[j as int].name, not_found@);
        }
        match compare_text(pages[j].name.as_str(), not_found) {
            Rank::Same => {
                assert(w@ =~= before + Seq::<char>::empty());
            },
            _ => {
                w.append("const PAGE_");
                w.append(pages[j].screaming.as_str());
                w.append("_ENDPOINT: &str = \"");
                w.append(pages[j].snake.as_str());
                w.append("\";\n\n");
                assert(w@ =~= before + endpoint_const(pv[j as int]));
            },
        }
        push_static_type(w, templates_dir, &pages[j]);
        assert(w@ =~= old(w)@ + static_types(templates_dir@, pv, not_found@, (j + 1) as nat));
        j = j + 1;
    }
}

/// Appends the static pages to `w`.
pub fn generate_static_pages(
    w: &mut String,
    templates_dir: &str,
    pages: &Vec<PageName>,
    not_found: &PageName,
)
    ensures
        final(w)@ == old(w)@ + static_pages_text(templates_dir@, pages.deep_view(), not_found@),
{
    w.append(
        "//-------------------------------------\n//------- STATIC PAGES\n//-------------------------------------\n\n",
    );
    w.append(
        "pub fn static_response(endpoint: &str, page: PageState) -> Result<HttpResponse> {\n    let (mut response, render_result) = match endpoint {\n",
    );
    push_static_arms(w, pages, not_found.name.as_str());
    w.append("        _ => (HttpResponse::NotFound(), Page");
    w.append(not_found.pascal.as_str());
    w.append("::new(page).render()),\n");
    w.append(
        "    };\n    let s = render_result.map_err(ErrorInternalServerError)?;\n    Ok(response.content_type(\"text/html\").body(s))\n}\n\n",
    );
    push_static_types(w, templates_dir, pages, not_found.name.as_str());
    assert(w@ =~= old(w)@ + static_pages_text(templates_dir@, pages.deep_view(), not_found@));
}

/// The template type of the dynamic page `page`, with the function that
/// renders it around its content.
pub open spec fn dynamic_type(templates_dir: Seq<char>, page: PageNameView) -> Seq<char> {
    "\n#[derive(Template)]\n#[template(path = \""@ + templates_dir + "/"@ + page.name
        + ".html\")]\npub struct Page"@ + page.pascal
        + "<'a> {\n    site_info: &'a SiteInfo,\n    page: PageState,\n    content: Content"@
        + page.pascal + ",\n}\n\nimpl<'a> Page"@ + page.pascal
        + "<'a> {\n    pub fn new_response(page: PageState, content: Content"@ + page.pascal
        + ") -> Result<HttpResponse> {\n        let page = Page"@ + page.pascal
        + " {\n            site_info: &SITE_INFO,\n            page,\n            content,\n        };\n        let s = page.render().map_err(ErrorInternalServerError)?;\n        Ok(HttpResponse::Ok().content_type(\"text/html\").body(s))\n    }\n}\n"@
}

/// The template types of the first `n` dynamic pages.
pub open spec fn dynamic_types(templates_dir: Seq<char>, pages: Seq<PageNameView>, n: nat) -> Seq<
    char,
>
    decreases n,
{
    if n == 0 || n > pages.len() {
        Seq::empty()
    } else {
        dynamic_types(templates_dir, pages, (n - 1) as nat) + dynamic_type(
            templates_dir,
            pages[n - 1],
        )
    }
}

/// The dynamic pages.
pub open spec fn dynamic_pages_text(templates_dir: Seq<char>, pages: Seq<PageNameView>) -> Seq<
    char,
> {
    "//-------------------------------------\n//------- DYNAMIC PAGES\n//-------------------------------------\n"@
        + dynamic_types(templates_dir, pages, pages.len())
}

/// Appends the template type of the dynamic page `page` to `w`.
fn push_dynamic_type(w: &mut String, templates_dir: &str, page: &PageName)
    ensures
        final(w)@ == old(w)@ + dynamic_type(templates_dir@, page@),
{
    w.append("\n#[derive(Template)]\n#[template(path = \"");
    w.append(templates_dir);
    w.append("/");
    w.append(page.name.as_str());
    w.append(".html\")]\npub struct Page");
    w.append(page.pascal.as_str());
    w.append("<'a> {\n    site_info: &'a SiteInfo,\n    page: PageState,\n    content: Content");
    w.append(page.pascal.as_str());
    w.append(",\n}\n\nimpl<'a> Page");
    w.append(page.pascal.as_str());
    w.append("<'a> {\n    pub fn new_response(page: PageState, content: Content");
    w.append(page.pascal.as_str());
    w.append(") -> Result<HttpResponse> {\n        let page = Page");
    w.append(page.pascal.as_str());
    w.append(
        " {\n            site_info: &SITE_INFO,\n            page,\n            content,\n        };\n        let s = page.render().map_err(ErrorInternalServerError)?;\n        Ok(HttpResponse::Ok().content_type(\"text/html\").body(s))\n    }\n}\n",
    );
    assert(w@ =~= old(w)@ + dynamic_type(templates_dir@, page@));
}

/// Appends the dynamic pages to `w`.
pub fn generate_dynamic_pages(w: &mut String, templates_dir: &str, pages: &Vec<PageName>)
    ensures
        final(w)@ == old(w)@ + dynamic_pages_text(templates_dir@, pages.deep_view()),
{
    let ghost pv = pages.deep_view();
    w.append(
        "//-------------------------------------\n//------- DYNAMIC PAGES\n//-------------------------------------\n",
    );
    let ghost head = w@;
    let mut i: usize = 0;
    assert(w@ =~= head + dynamic_types(templates_dir@, pv, 0));
    while i < pages.len()
        invariant
            i <= pages.len(),
            pv == pages.deep_view(),
            w@ == head + dynamic_types(templates_dir@, pv, i as nat),
        decreases pages.len() - i,
    {
        assert(pv[i as int] == pages@[i as int]@);
        push_dynamic_type(w, templates_dir, &pages[i]);
        assert(w@ =~= head + dynamic_types(templates_dir@, pv, (i + 1) as nat));
        i = i + 1;
    }
}

/// The static pages among the templates, sorted.
pub open spec fn static_pages_of(templates: Seq<Seq<char>>, configured: Seq<Seq<char>>) -> Seq<
    Seq<char>,
> {
    sorted_texts(selected(templates, configured, true, templates.len()))
}

/// The dynamic pages among the templates: those that are not configured as
/// static, sorted.
pub open spec fn dynamic_pages_of(templates: Seq<Seq<char>>, configured: Seq<Seq<char>>) -> Seq<
    Seq<char>,
> {
    sorted_texts(selected(templates, configured, false, templates.len()))
}

/// The pages module for the templates with the file stems `stems`: the
/// documentation, the imports, the static pages, the dynamic pages. `None`
/// where the name of a page is not ASCII text, so that no identifier can be
/// made of it.
#[verifier::opaque]
pub open spec fn pages_text(
    templates_dir: Seq<char>,
    not_found: Seq<char>,
    configured: Seq<Seq<char>>,
    stems: Seq<Seq<char>>,
) -> Option<Seq<char>> {
    let templates = templates_of(stems, not_found);
    let statics = static_pages_of(templates, configured);
    let dynamics = dynamic_pages_of(templates, configured);
    if ascii_path(statics) && ascii_path(dynamics) && is_ascii_chars(not_found) {
        Some(
            docs_text() + imports_text(named_pages(dynamics)) + static_pages_text(
                templates_dir,
                named_pages(statics),
                named_page(not_found),
            ) + dynamic_pages_text(templates_dir, named_pages(dynamics)),
        )
    } else {
        None
    }
}

/// Generates the pages module for the templates with the file stems `stems`.
pub fn generate_pages(cfg: &Pages, stems: &Vec<String>) -> (r: Option<String>)
    ensures
        match r {
            Some(text) => pages_text(
                cfg.templates_dir@,
                cfg.not_found@,
                cfg.static_pages.deep_view(),
                stems.deep_view(),
            ) == Some(text@),
            None => pages_text(
                cfg.templates_dir@,
                cfg.not_found@,
                cfg.static_pages.deep_view(),
                stems.deep_view(),
            ) is None,
        },
{
    reveal(pages_text);
    let (not_found_template, templates) = get_templates(stems, cfg.not_found.as_str());
    let static_pages = sort_texts(select(&templates, &cfg.static_pages, true));
    let dynamic_pages = sort_texts(select(&templates, &cfg.static_pages, false));
    if !is_ascii_path(&static_pages) || !is_ascii_path(&dynamic_pages)
        || !not_found_template.as_str().is_ascii() {
        return None;
    }
    let statics = name_pages(&static_pages);
    let dynamics = name_pages(&dynamic_pages);
    let not_found = name_page(not_found_template.as_str());
    let mut w = String::new();
    generate_pages_mod_docs(&mut w);
    generate_pages_imports(&mut w, &dynamics);
    generate_static_pages(&mut w, cfg.templates_dir.as_str(), &statics, &not_found);
    generate_dynamic_pages(&mut w, cfg.templates_dir.as_str(), &dynamics);
    Some(w)
}

} // verus!
