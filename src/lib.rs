//! Feed ingestion and normalization: format parsing, content rewriting,
//! date resolution, entry identity and the per-feed refresh protocol.
pub mod dates;
pub mod digest;
pub mod identity;
pub mod types;
pub mod urls;
pub mod content;
pub mod parse;
pub mod icon;
pub mod store;
pub mod ingest;
pub mod auth;
pub mod cache;
