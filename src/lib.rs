//! A same-domain website crawler: link scoping, fetch-strategy selection,
//! a concurrency-bounded crawl engine and Markdown document assembly.
pub mod text;
pub mod fetch;
pub mod links;
pub mod store;
pub mod events;
pub mod engine;
pub mod converter;
pub mod models;
pub mod page;
pub mod report;
pub mod crawler;
