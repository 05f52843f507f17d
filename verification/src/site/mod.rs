//! What the pages of the site are rendered from.

pub mod cache;
pub mod l18n;
pub mod middleware;
pub mod models;
pub mod pages;
pub mod params;
pub mod session;
pub mod state;
pub mod templates;
