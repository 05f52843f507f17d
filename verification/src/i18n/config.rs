//! What the generator is configured with.

use vstd::prelude::*;

verus! {

/// The internationalization settings of a package.
#[derive(Debug)]
pub struct I18n {
    /// The supported locales; the first is the default.
    pub locales: Vec<String>,
    /// The directory of the locale files.
    pub path: String,
    /// The directory that the generated source goes to.
    pub out: String,
    pub pages: Pages,
}

/// The settings of the page templates.
#[derive(Debug)]
pub struct Pages {
    /// The directory that is watched for changes.
    pub path: String,
    /// The page that is served where no other fits.
    pub not_found: String,
    /// The directory of the templates, as the template engine sees it.
    pub templates_dir: String,
    /// The pages that are rendered without content of their own.
    pub static_pages: Vec<String>,
}

} // verus!
