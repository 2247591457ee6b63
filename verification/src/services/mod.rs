//! The sources that feed the brief.

pub mod calendar_facts;
pub mod calendar_service;
pub mod github_service;
