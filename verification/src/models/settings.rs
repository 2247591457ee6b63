//! What the settings screen shows.

use crate::models::calendar::{CalendarConfig, CalendarConfigView};
use crate::models::email::EmailConfig;
use vstd::prelude::*;

verus! {

/// Every setting at once.
#[derive(Debug, Clone)]
pub struct AllSettings {
    pub github_configured: bool,
    pub github_username: Option<String>,
    pub calendar_config: CalendarConfig,
    pub email_config: EmailConfig,
    pub onboarding_complete: bool,
}

impl Default for AllSettings {
    /// Nothing is configured and onboarding has not been done.
    fn default() -> (settings: AllSettings)
        ensures
            !settings.github_configured,
            settings.github_username is None,
            settings.calendar_config@ == (CalendarConfigView {
                source_type: "none"@,
                ics_path: None,
                ics_url: None,
            }),
            !settings.email_config.enabled,
            settings.email_config.imap_server is None,
            settings.email_config.imap_port is None,
            settings.email_config.username is None,
            !settings.onboarding_complete,
    {
        AllSettings {
            github_configured: false,
            github_username: None,
            calendar_config: CalendarConfig::default(),
            email_config: EmailConfig::default(),
            onboarding_complete: false,
        }
    }
}

/// When each source was last fetched.
#[derive(Debug, Clone)]
pub struct CacheStatus {
    pub github_last_fetch: Option<i64>,
    pub calendar_last_fetch: Option<i64>,
    pub email_last_fetch: Option<i64>,
}

} // verus!
