//! The local cache: what was last fetched from each source.

pub mod partitions;
pub mod repository;
pub mod schema;
