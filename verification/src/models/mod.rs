//! The data that the brief is made of.

pub mod brief;
pub mod calendar;
pub mod email;
pub mod github;
pub mod settings;
