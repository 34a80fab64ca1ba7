//! A feed-aggregation library: it normalizes parsed feed entries into a
//! uniform item model, merges the batches that independent fetches produced
//! (tolerating per-source failure), orders the merged items by recency, and
//! applies a skip/count pagination window. Network and terminal I/O live in
//! the surrounding application; this crate holds the verified logic.

pub mod config;
pub mod data;
pub mod rank;
pub mod utils;
