//! The generated source text.

pub mod instance;
pub mod locales;
pub mod pages;
pub mod record;

use crate::i18n::codegen::locales::{
    generate_locales, locales_text, GenerateError, GenerateErrorView,
};
use crate::i18n::codegen::pages::{generate_pages, pages_text};
use crate::i18n::config::Pages;
use crate::i18n::locales::{Storage, StorageView};
use vstd::prelude::*;

verus! {

/// A generated source file: where it goes and what it holds.
pub struct Artifact {
    pub path: String,
    pub text: String,
}

impl View for Artifact {
    type V = (Seq<char>, Seq<char>);

    open spec fn view(&self) -> (Seq<char>, Seq<char>) {
        (self.path@, self.text@)
    }
}

impl DeepView for Artifact {
    type V = (Seq<char>, Seq<char>);

    open spec fn deep_view(&self) -> (Seq<char>, Seq<char>) {
        self.view()
    }
}

/// The file of the locale module below `dir`.
pub open spec fn locales_file(dir: Seq<char>) -> Seq<char> {
    dir + "/locales.rs"@
}

/// The file of the pages module below `dir`.
pub open spec fn pages_file(dir: Seq<char>) -> Seq<char> {
    dir + "/pages/generated.rs"@
}

/// Everything that is generated into `dir`: the locale module, then the
/// pages module; or the reason why nothing is.
#[verifier::opaque]
pub open spec fn all_artifacts(
    dir: Seq<char>,
    storage: StorageView,
    templates_dir: Seq<char>,
    not_found: Seq<char>,
    configured: Seq<Seq<char>>,
    stems: Seq<Seq<char>>,
) -> Result<Seq<(Seq<char>, Seq<char>)>, GenerateErrorView> {
    match locales_text(storage) {
        Err(e) => Err(e),
        Ok(locales) => match pages_text(templates_dir, not_found, configured, stems) {
            None => Err(GenerateErrorView::Identifier),
            Some(pages) => Ok(seq![(locales_file(dir), locales), (pages_file(dir), pages)]),
        },
    }
}

/// Generates everything that goes into `dir`: the locale module for
/// `storage` and the pages module for the templates with the file stems
/// `stems`. Either all of it is generated or nothing.
pub fn generate_all(dir: &str, storage: &Storage, pages_cfg: &Pages, stems: &Vec<String>) -> (r:
    Result<Vec<Artifact>, GenerateError>)
    ensures
        match r {
            Ok(artifacts) => all_artifacts(
                dir@,
                storage@,
                pages_cfg.templates_dir@,
                pages_cfg.not_found@,
                pages_cfg.static_pages.deep_view(),
                stems.deep_view(),
            ) == Ok::<Seq<(Seq<char>, Seq<char>)>, GenerateErrorView>(artifacts.deep_view()),
            Err(e) => all_artifacts(
                dir@,
                storage@,
                pages_cfg.templates_dir@,
                pages_cfg.not_found@,
                pages_cfg.static_pages.deep_view(),
                stems.deep_view(),
            ) == Err::<Seq<(Seq<char>, Seq<char>)>, GenerateErrorView>(e@),
        },
{
    reveal(all_artifacts);
    let locales = match generate_locales(storage) {
        Ok(text) => text,
        Err(e) => {
            return Err(e);
        },
    };
    let pages = match generate_pages(pages_cfg, stems) {
        Some(text) => text,
        None => {
            return Err(GenerateError::Identifier);
        },
    };
    Ok(place(dir, locales, pages))
}

/// Puts the two modules at their places below `dir`.
fn place(dir: &str, locales: String, pages: String) -> (out: Vec<Artifact>)
    ensures
        out.deep_view() == seq![(locales_file(dir@), locales@), (pages_file(dir@), pages@)],
{
    let mut locales_path = dir.to_owned();
    locales_path.append("/locales.rs");
    let mut pages_path = dir.to_owned();
    pages_path.append("/pages/generated.rs");
    let mut out: Vec<Artifact> = Vec::new();
    out.push(Artifact { path: locales_path, text: locales });
    out.push(Artifact { path: pages_path, text: pages });
    assert(out.deep_view() =~= seq![
        (locales_file(dir@), locales@),
        (pages_file(dir@), pages@),
    ]);
    out
}

} // verus!
