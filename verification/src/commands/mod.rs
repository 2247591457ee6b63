//! The operations offered to the shell that embeds the engine.
//!
//! Each operation is a decision over plain values: what a source returned,
//! what the cache holds, what the clock reads. Fetching, persisting and
//! reading the clock are the caller's part.

pub mod brief;
pub mod calendar;
pub mod settings;
