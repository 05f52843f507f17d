//! A small news site, as far as it can be reasoned about: the build-time
//! generator of its localization tables, which flattens per-locale string
//! trees into path/value pairs, completes each locale against the default
//! locale and renders typed constant tables; the data of the site; and what
//! its pages are rendered from.

pub mod casing;
pub mod data;
pub mod i18n;
pub mod markdown;
pub mod site;
pub mod text;
