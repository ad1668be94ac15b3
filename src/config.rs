//! The bot's settings, as read from its configuration file.
use vstd::prelude::*;

verus! {

/// Credentials and links of the chat platform.
#[derive(Debug, PartialEq, Eq)]
pub struct DiscordConfig {
    pub token: String,
    pub invite_link: String,
}

/// All settings.
#[derive(Debug, PartialEq, Eq)]
pub struct Config {
    pub discord: DiscordConfig,
}

} // verus!
