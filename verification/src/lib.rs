//! Verified core of a documentation scraper: document models, entry
//! indexes and page databases, version and slug rules, URL and path
//! normalisation, HTML filters and their stacks, the crawl, search, the
//! registries of filters and scrapers, and the events they report.

pub mod text;
pub mod models;
pub mod name_order;
pub mod entry_index;
pub mod page_db;
pub mod doc;
pub mod html;
pub mod error;
pub mod parser;
pub mod keyed;
pub mod db;
pub mod indexer;
pub mod filter_stack;
pub mod index_entry;
pub mod strs;
pub mod filter_base;
pub mod urls;
pub mod request;
pub mod requester;
pub mod core_filters;
pub mod scraper_filter;
pub mod filters;
pub mod url_scraper;
pub mod babel;
pub mod instrumentable;
pub mod subscriber;
pub mod search;
pub mod images;
pub mod validation;
pub mod utf8_text;
pub mod filter_registry;
pub mod scraper_registry;
pub mod filter_trait;
pub mod scraper_base;
pub mod scraper_core;
pub mod filter_factory;
pub mod page_filter;
