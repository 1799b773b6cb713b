//! Settings of the service.

use crate::db::rows::optional_text;
use vstd::prelude::*;

verus! {

/// Where the database lies when nothing else is said.
pub open spec fn default_db_path() -> Seq<char> {
    "stats.db"@
}

#[derive(Clone, Debug)]
pub struct Config {
    pub stats_api_key: String,
    pub discord_webhook_url: Option<String>,
    pub db_path: String,
    /// Shared with the signaling server, to verify the tokens it issues. Without
    /// it, requests that need a token are answered with 503.
    pub jwt_secret: Option<String>,
}

/// Why the settings are not usable.
#[derive(Debug, Clone, Copy, PartialEq, Eq, Structural)]
pub enum ConfigError {
    /// `STATS_API_KEY` is not set.
    MissingApiKey,
}

impl Config {
    /// The settings that the values of `STATS_API_KEY`, `DISCORD_WEBHOOK_URL`,
    /// `DB_PATH` and `JWT_SECRET` come to.
    pub fn from_env(
        stats_api_key: Option<String>,
        discord_webhook_url: Option<String>,
        db_path: Option<String>,
        jwt_secret: Option<String>,
    ) -> (r: Result<Config, ConfigError>)
        ensures
            match r {
                Ok(c) => {
                    &&& optional_text(stats_api_key) == Some(c.stats_api_key@)
                    &&& c.discord_webhook_url == discord_webhook_url
                    &&& c.db_path@ == (match db_path {
                        Some(p) => p@,
                        None => default_db_path(),
                    })
                    &&& optional_text(c.jwt_secret) == (match jwt_secret {
                        Some(s) => if s@.len() == 0 {
                            None
                        } else {
                            Some(s@)
                        },
                        None => None,
                    })
                },
                Err(e) => e == ConfigError::MissingApiKey && stats_api_key is None,
            },
    {
        let stats_api_key = match stats_api_key {
            Some(key) => key,
            None => {
                return Err(ConfigError::MissingApiKey);
            },
        };
        let db_path = match db_path {
            Some(path) => path,
            None => "stats.db".to_owned(),
        };
        let jwt_secret = match jwt_secret {
            Some(secret) => {
                if secret.as_str().is_empty() {
                    None
                } else {
                    Some(secret)
                }
            },
            None => None,
        };
        Ok(Config { stats_api_key, discord_webhook_url, db_path, jwt_secret })
    }
}

} // verus!
