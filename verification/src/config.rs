//! Process configuration: connection and credential strings.
//!
//! Loading the values from the environment is I/O and stays outside the
//! library; this module only defines the configuration record and its
//! defaults.

use vstd::prelude::*;

verus! {

/// Startup configuration of the worker process.
#[derive(Debug, Clone)]
pub struct Config {
    pub database_url: String,
    pub osu_client_id: String,
    pub osu_client_secret: String,
    pub discord_bot_token: String,
}

/// What the default configuration holds: a local database and empty
/// credentials.
pub open spec fn is_default_config(c: Config) -> bool {
    &&& c.database_url@ == "sqlite:///pendora.db"@
    &&& c.osu_client_id@ == ""@
    &&& c.osu_client_secret@ == ""@
    &&& c.discord_bot_token@ == ""@
}

impl Default for Config {
    fn default() -> (r: Self)
        ensures
            is_default_config(r),
    {
        Config {
            database_url: String::from_str("sqlite:///pendora.db"),
            osu_client_id: String::from_str(""),
            osu_client_secret: String::from_str(""),
            discord_bot_token: String::from_str(""),
        }
    }
}

impl Config {
    /// Creates a configuration holding the default values.
    pub fn with_defaults() -> (r: Self)
        ensures
            is_default_config(r),
    {
        Self::default()
    }
}

} // verus!
