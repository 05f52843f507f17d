//! Build-time internationalization: locale trees in, typed tables out.

pub mod codegen;
pub mod config;
pub mod flatten;
pub mod locales;
pub mod merge;
pub mod names;
pub mod order;
pub mod pair;
pub mod path;
pub mod typed;
pub mod value;
pub mod yaml;

use crate::i18n::codegen::locales::{GenerateError, GenerateErrorView};
use crate::i18n::codegen::{all_artifacts, generate_all, Artifact};
use crate::i18n::config::I18n;
use crate::i18n::locales::{document_views, stored, LoadError, LoadErrorView, Storage, StorageView};
use vstd::prelude::*;

verus! {

/// Why nothing was built.
pub enum BuildError {
    /// No locale is configured, so none is the default.
    NoLocales,
    Load(LoadError),
    Generate(GenerateError),
}

/// The mathematical value of a [`BuildError`].
pub ghost enum BuildErrorView {
    NoLocales,
    Load(LoadErrorView),
    Generate(GenerateErrorView),
}

impl View for BuildError {
    type V = BuildErrorView;

    open spec fn view(&self) -> BuildErrorView {
        match self {
            BuildError::NoLocales => BuildErrorView::NoLocales,
            BuildError::Load(e) => BuildErrorView::Load(e@),
            BuildError::Generate(e) => BuildErrorView::Generate(e@),
        }
    }
}

/// What a build with the settings `cfg` gives, where `documents` is what
/// was read of the locale files, locale by locale, and `stems` are the file
/// stems of the page templates: every locale is loaded, and from what was
/// loaded everything is generated. The first failure is the result, and
/// nothing is generated then.
pub open spec fn built(
    locales: Seq<Seq<char>>,
    path: Seq<char>,
    out: Seq<char>,
    templates_dir: Seq<char>,
    not_found: Seq<char>,
    configured: Seq<Seq<char>>,
    documents: Seq<Option<Seq<char>>>,
    stems: Seq<Seq<char>>,
) -> Result<Seq<(Seq<char>, Seq<char>)>, BuildErrorView> {
    if locales.len() == 0 {
        Err(BuildErrorView::NoLocales)
    } else {
        match stored(path, locales, documents, locales.len()) {
            Err(e) => Err(BuildErrorView::Load(e)),
            Ok(loaded) => match all_artifacts(
                out,
                StorageView { default_locale: locales[0], locales: loaded },
                templates_dir,
                not_found,
                configured,
                stems,
            ) {
                Err(e) => Err(BuildErrorView::Generate(e)),
                Ok(artifacts) => Ok(artifacts),
            },
        }
    }
}

/// Builds the locale module and the pages module of a package from its
/// settings, from what was read of its locale files and from the file stems
/// of its page templates. The result holds each file to write with its path,
/// or the one reason why none is to be written.
pub fn build(cfg: &I18n, documents: &Vec<Option<String>>, stems: &Vec<String>) -> (r: Result<
    Vec<Artifact>,
    BuildError,
>)
    ensures
        match r {
            Ok(artifacts) => built(
                cfg.locales.deep_view(),
                cfg.path@,
                cfg.out@,
                cfg.pages.templates_dir@,
                cfg.pages.not_found@,
                cfg.pages.static_pages.deep_view(),
                document_views(documents@),
                stems.deep_view(),
            ) == Ok::<Seq<(Seq<char>, Seq<char>)>, BuildErrorView>(artifacts.deep_view()),
            Err(e) => built(
                cfg.locales.deep_view(),
                cfg.path@,
                cfg.out@,
                cfg.pages.templates_dir@,
                cfg.pages.not_found@,
                cfg.pages.static_pages.deep_view(),
                document_views(documents@),
                stems.deep_view(),
            ) == Err::<Seq<(Seq<char>, Seq<char>)>, BuildErrorView>(e@),
        },
{
    if cfg.locales.len() == 0 {
        return Err(BuildError::NoLocales);
    }
    let storage = match Storage::load(cfg.path.as_str(), &cfg.locales, documents) {
        Ok(storage) => storage,
        Err(e) => {
            return Err(BuildError::Load(e));
        },
    };
    assert(storage@ == (StorageView {
        default_locale: cfg.locales.deep_view()[0],
        locales: storage@.locales,
    }));
    match generate_all(cfg.out.as_str(), &storage, &cfg.pages, stems) {
        Ok(artifacts) => Ok(artifacts),
        Err(e) => Err(BuildError::Generate(e)),
    }
}

} // verus!
