//! Verified core of a photo synchroniser: it walks a remote folder tree,
//! reads where and when each picture was taken, decides which uploads are
//! needed and keeps the per-picture pipeline within a concurrency bound.

pub mod config;
pub mod converter;
pub mod crawl;
pub mod error;
pub mod fields;
pub mod image_source;
pub mod listing;
pub mod metadata;
pub mod output;
pub mod outside;
pub mod pipeline;
pub mod text;
pub mod timestamp;
