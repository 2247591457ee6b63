//! Mail headers and the configuration of the mail source.
//!
//! No mail source exists yet: the brief's list of headers is always empty.

use vstd::prelude::*;

verus! {

/// The header of one message.
#[derive(Debug, Clone)]
pub struct EmailHeader {
    pub id: String,
    pub from_address: String,
    pub from_name: Option<String>,
    pub subject: String,
    pub received_at: i64,
    pub is_unread: bool,
    pub is_important: bool,
    pub snippet: Option<String>,
}

/// Where mail would come from.
#[derive(Debug, Clone)]
pub struct EmailConfig {
    pub enabled: bool,
    pub imap_server: Option<String>,
    pub imap_port: Option<u16>,
    pub username: Option<String>,
}

impl Default for EmailConfig {
    /// Mail is switched off and nothing is configured.
    fn default() -> (config: EmailConfig)
        ensures
            !config.enabled,
            config.imap_server is None,
            config.imap_port is None,
            config.username is None,
    {
        EmailConfig { enabled: false, imap_server: None, imap_port: None, username: None }
    }
}

} // verus!
