//! The data of the news site.

pub mod database;
pub mod models;
