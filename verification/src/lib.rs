//! Ingestion cursors and a tag-indexed corpus for a booru-style imageboard.
//!
//! The crate holds the decision logic of the harvesting pipeline and the
//! inverted index that answers "contains all of" tag queries. Everything in
//! it is plain computation: reading files, talking to the network and
//! sleeping are left to the caller.

pub mod api;
pub mod bitmap;
pub mod index;
pub mod log;
pub mod models;
pub mod scraper;
pub mod text;
