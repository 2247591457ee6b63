//! Daily brief engine: calendar ingestion, time-window classification and the
//! cache-fallback policy that every data source obeys.

pub mod agenda;
pub mod civil;
pub mod commands;
pub mod database;
pub mod error;
pub mod filters;
pub mod ics;
pub mod identity;
pub mod models;
pub mod services;
pub mod text;
pub mod timekeeping;
pub mod time_window;
