//! The Joysound provider: credentials and metadata.

use vstd::prelude::*;

use super::error::ProviderError;
use super::types::{Capability, ProviderConfig, ProviderId, ProviderMetadata};
use crate::text::concat_str;

verus! {

/// Joysound member credentials.
#[derive(Debug, Clone)]
pub struct JoysoundConfig {
    pub username: String,
    pub password: String,
}

impl JoysoundConfig {
    /// Reads credentials out of a stored config; an empty config is refused
    /// with the message a JSON decoder gives for `null`.
    pub fn from_config(config: &ProviderConfig) -> (r: Result<JoysoundConfig, String>)
        ensures
            match config {
                ProviderConfig::BasicAuth { username, password } => r matches Ok(c) && c.username@
                    == username@ && c.password@ == password@,
                ProviderConfig::Empty => r matches Err(m) && m@
                    == "invalid type: null, expected struct JoysoundConfig"@,
            },
    {
        match config {
            ProviderConfig::BasicAuth { username, password } => Ok(
                JoysoundConfig { username: username.clone(), password: password.clone() },
            ),
            ProviderConfig::Empty => Err(
                String::from_str("invalid type: null, expected struct JoysoundConfig"),
            ),
        }
    }

    /// The stored form of these credentials.
    pub fn into_config(self) -> (r: ProviderConfig)
        ensures
            r matches ProviderConfig::BasicAuth { username, password } && username@ == self.username@
                && password@ == self.password@,
    {
        ProviderConfig::BasicAuth { username: self.username, password: self.password }
    }
}

/// The Joysound provider (stateless; sessions hold the credentials).
pub struct JoysoundProvider;

impl JoysoundProvider {
    /// Joysound supports search and lyrics, and needs per-session credentials.
    pub fn metadata() -> (r: ProviderMetadata)
        ensures
            r.id == ProviderId::Joysound,
            r.name@ == "Joysound"@,
            r.capabilities@ == seq![Capability::Search, Capability::Lyrics],
            r.requires_configuration,
    {
        let caps: &'static [Capability] = &[Capability::Search, Capability::Lyrics];
        assert(caps@ =~= seq![Capability::Search, Capability::Lyrics]);
        ProviderMetadata {
            id: ProviderId::Joysound,
            name: "Joysound",
            capabilities: caps,
            requires_configuration: true,
        }
    }

    /// The credentials a Joysound session is opened with, or why there are none.
    pub fn credentials(config: Option<&ProviderConfig>) -> (r: Result<JoysoundConfig, ProviderError>)
        ensures
            match config {
                None => r matches Err(ProviderError::AuthFailed(m)) && m@
                    == "Joysound requires username/password"@,
                Some(ProviderConfig::BasicAuth { username, password }) => r matches Ok(c) && c.username@
                    == username@ && c.password@ == password@,
                Some(ProviderConfig::Empty) => r matches Err(ProviderError::AuthFailed(m)) && m@
                    == "Joysound expects username/password config: "@
                    + "invalid type: null, expected struct JoysoundConfig"@,
            },
    {
        match config {
            None => Err(ProviderError::AuthFailed(String::from_str("Joysound requires username/password"))),
            Some(c) => match JoysoundConfig::from_config(c) {
                Ok(cfg) => Ok(cfg),
                Err(e) => Err(
                    ProviderError::AuthFailed(
                        concat_str("Joysound expects username/password config: ", e.as_str()),
                    ),
                ),
            },
        }
    }
}

} // verus!
