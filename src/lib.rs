//! Web content fetching: a batch engine that fetches many URLs under a concurrency limit
//! and a rate limit, keeps per-item failures apart and aggregates statistics, with the
//! transformations of fetched pages (links, tables, metadata, feeds, sitemaps, search,
//! validation of tool arguments) as verified functions.

pub mod text;
pub mod batch;
pub mod validation;
pub mod wiki;
pub mod pdf;
pub mod image;
pub mod search;
pub mod urls;
pub mod links;
pub mod reddit;
pub mod defaults;
pub mod content_type;
pub mod html;
pub mod selector;
pub mod metadata;
pub mod sitemap;
pub mod robots;
pub mod html_convert;
pub mod feed;
pub mod tools;
