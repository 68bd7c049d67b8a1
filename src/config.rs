//! Tracker configuration: the bearer token and the report endpoint.
use vstd::prelude::*;

verus! {

/// Tracker configuration loaded from the configuration file or the environment.
pub struct TrackerConfig {
    /// Application token, sent verbatim as a credential header.
    pub token: String,
    /// URL to which the address reports are posted.
    pub report_url: String,
}

impl TrackerConfig {
    /// A configuration is usable only when both fields are non-empty.
    pub open spec fn valid(&self) -> bool {
        self.token@.len() > 0 && self.report_url@.len() > 0
    }

    /// Create a new tracker configuration from a token and a report URL.
    pub fn new(token: String, report_url: String) -> (r: Self)
        ensures
            r.token == token,
            r.report_url == report_url,
    {
        TrackerConfig { token, report_url }
    }

    /// Whether both the token and the report URL are present.
    pub fn is_valid(&self) -> (r: bool)
        ensures
            r == self.valid(),
    {
        self.token.as_str().unicode_len() > 0 && self.report_url.as_str().unicode_len() > 0
    }

    /// Resolve the configuration to use: the stored one (from the user's
    /// configuration file) when it was read and is valid, otherwise the one
    /// built from the environment when it is valid, otherwise none. A
    /// resolved configuration always has a non-empty token and URL.
    pub fn load(stored: Option<TrackerConfig>, from_env: Option<TrackerConfig>) -> (r: Option<
        Self,
    >)
        ensures
            r == (match (stored, from_env) {
                (Some(c), _) if c.valid() => Some(c),
                (_, Some(e)) if e.valid() => Some(e),
                _ => None::<TrackerConfig>,
            }),
            r matches Some(c) ==> c.valid(),
    {
        if let Some(c) = stored {
            if c.is_valid() {
                return Some(c);
            }
        }
        if let Some(e) = from_env {
            if e.is_valid() {
                return Some(e);
            }
        }
        None
    }
}

} // verus!
