//! Stored per-session provider credentials.

use vstd::prelude::*;

use vstd::std_specs::convert::FromSpecImpl;

use crate::provider::types::{provider_from_name, ProviderConfig, ProviderId};

verus! {

/// A row of the session/provider credentials table.
#[derive(Debug, Clone)]
pub struct ProviderConfigRow {
    pub session_id: String,
    pub provider_id: ProviderId,
    pub config: ProviderConfig,
}

/// Why a stored row could not be read back.
pub open spec fn bad_provider_id_text() -> Seq<char> {
    "provider id parse error: Matching variant not found"@
}

impl ProviderConfigRow {
    /// Reads back a stored row whose provider id is kept as its name; an
    /// unknown name is an error, with the store's message.
    pub fn from_stored(session_id: String, provider_id: &str, config: ProviderConfig) -> (r: Result<
        ProviderConfigRow,
        String,
    >)
        ensures
            match provider_from_name(provider_id@) {
                Some(p) => r matches Ok(row) && row.session_id@ == session_id@ && row.provider_id == p
                    && row.config == config,
                None => r matches Err(m) && m@ == bad_provider_id_text(),
            },
    {
        match ProviderId::from_name(provider_id) {
            Some(p) => Ok(ProviderConfigRow { session_id, provider_id: p, config }),
            None => Err(String::from_str("provider id parse error: Matching variant not found")),
        }
    }

    /// The stored credentials of the row.
    pub fn config(&self) -> (r: &ProviderConfig)
        ensures
            *r == self.config,
    {
        &self.config
    }
}

/// A copy of stored credentials.
fn copy_config(c: &ProviderConfig) -> (r: ProviderConfig)
    ensures
        r == *c,
{
    match c {
        ProviderConfig::BasicAuth { username, password } => ProviderConfig::BasicAuth {
            username: username.clone(),
            password: password.clone(),
        },
        ProviderConfig::Empty => ProviderConfig::Empty,
    }
}

impl<'a> From<&'a ProviderConfigRow> for ProviderConfig {
    /// The credentials a row stores.
    fn from(row: &'a ProviderConfigRow) -> (r: ProviderConfig) {
        copy_config(&row.config)
    }
}

impl<'a> FromSpecImpl<&'a ProviderConfigRow> for ProviderConfig {
    open spec fn obeys_from_spec() -> bool {
        true
    }

    open spec fn from_spec(row: &'a ProviderConfigRow) -> ProviderConfig {
        row.config
    }
}

} // verus!
