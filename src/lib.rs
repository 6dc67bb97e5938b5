//! Scraping an audiobook catalog page, finding the items not seen before,
//! and delivering them to a chat channel under a rate limit, with a bounded
//! catalog and activity log.

pub mod text;
pub mod utils;
pub mod scrape;
pub mod settings;
pub mod book;
pub mod catalog;
pub mod notifier;
pub mod storage;
pub mod pipeline;
