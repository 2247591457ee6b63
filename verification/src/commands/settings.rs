//! Reading the settings that the shell shows.

use crate::database::repository::{get_setting, setting_value};
use crate::database::schema::{Database, DatabaseView};
use crate::models::calendar::CalendarConfig;
use crate::models::email::EmailConfig;
use crate::models::settings::AllSettings;
use crate::text::{opt_text, same_text};
use vstd::prelude::*;
use vstd::string::*;

verus! {

/// Onboarding is complete when the setting `onboarding_complete` holds the
/// text `true`.
pub open spec fn onboarding_complete(db: DatabaseView) -> bool {
    setting_value(db.settings, "onboarding_complete"@) == Some("true"@)
}

/// Tells whether onboarding has been completed.
pub fn is_onboarding_complete(db: &Database) -> (complete: bool)
    ensures
        complete == onboarding_complete(db@),
{
    match get_setting(db, "onboarding_complete") {
        Some(value) => same_text(value.as_str(), "true"),
        None => false,
    }
}

/// Collects every setting.
///
/// The user name is read only while the code-review source is configured.
/// The calendar configuration is handed through, and the mail source is
/// reported as switched off.
pub fn get_all_settings(db: &Database, github_configured: bool, calendar_config: CalendarConfig) -> (settings:
    AllSettings)
    ensures
        settings.github_configured == github_configured,
        opt_text(settings.github_username) == (if github_configured {
            setting_value(db@.settings, "github_username"@)
        } else {
            None
        }),
        settings.calendar_config == calendar_config,
        !settings.email_config.enabled,
        settings.email_config.imap_server is None,
        settings.email_config.imap_port is None,
        settings.email_config.username is None,
        settings.onboarding_complete == onboarding_complete(db@),
{
    let github_username = if github_configured {
        get_setting(db, "github_username")
    } else {
        None
    };
    AllSettings {
        github_configured: github_configured,
        github_username: github_username,
        calendar_config: calendar_config,
        email_config: EmailConfig::default(),
        onboarding_complete: is_onboarding_complete(db),
    }
}

} // verus!
