//! Rental-listing acquisition and deduplication pipeline.
//!
//! Site adapters normalize heterogeneous listing pages into a uniform
//! two-phase result model (`Partial` index data, `Full` detail data with
//! coordinates). The pipeline diffs a listing batch against the set of
//! already-seen URLs, applies the acceptance filter, enriches survivors
//! with coordinates, tests them against a configured geographic region,
//! and produces a notification batch together with the URLs to commit.
//!
//! Coordinates are carried as integer microdegrees so that every geometric
//! and arithmetic step is exact.

pub mod bytes;
pub mod model;
pub mod pipeline;
pub mod region;
pub mod scraping;
pub mod store;
