//! Sitemap generation and static-page routing for a crate-documentation
//! hosting site.
//!
//! The sitemap space is partitioned into 26 shards, one per lowercase ASCII
//! letter; a shard document lists, for every successfully built package whose
//! name starts with that letter, one row per build target with the most
//! recent release time, floored to a fixed recrawl date.

pub mod about;
pub mod error;
pub mod shard;
pub mod sitemap;
pub mod timestamp;
