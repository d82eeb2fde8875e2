//! The remote API: its wire records, the coercion of their quirky fields, and
//! the request layer.

pub mod client;
pub mod models;
pub mod utils;
