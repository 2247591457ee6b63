//! The brief: one snapshot over every source.

use crate::models::calendar::CalendarEvent;
use crate::models::email::EmailHeader;
use crate::models::github::GitHubBriefData;
use crate::timekeeping::current_instant;
use vstd::prelude::*;

verus! {

/// What the user sees: the code-review signals if that source is
/// configured, today's calendar events, the mail headers, and the instant at
/// which the snapshot was put together.
#[derive(Debug)]
pub struct BriefData {
    pub github: Option<GitHubBriefData>,
    pub calendar: Vec<CalendarEvent>,
    pub email: Vec<EmailHeader>,
    pub generated_at: i64,
}

impl Default for BriefData {
    /// An empty brief, stamped with the machine's current time.
    fn default() -> (brief: BriefData)
        ensures
            brief.github is None,
            brief.calendar@.len() == 0,
            brief.email@.len() == 0,
    {
        BriefData {
            github: None,
            calendar: Vec::new(),
            email: Vec::new(),
            generated_at: current_instant(),
        }
    }
}

} // verus!
