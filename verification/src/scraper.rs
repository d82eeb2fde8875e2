//! The two ingestion streams and the checkpoint they share.

pub mod post_scraper;
pub mod state_manager;
pub mod tag_scraper;
