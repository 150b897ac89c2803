//! Decisions of the gRPC services: which requests are refused and with what
//! status, what configuring or unconfiguring a provider does to the session
//! cache, and what status and provider listings report. Reading and writing
//! the database, and calling into providers, are the services' own part.

use std::sync::Arc;

use vstd::prelude::*;

use crate::provider::cache::ProviderCache;
use crate::provider::error::{provider_error_text, status_code_of, ProviderError, StatusCode};
use crate::provider::types::{Capability, ProviderConfig, ProviderId};
use crate::provider::{capabilities_of, display_name, provider_id, Provider, ProviderRegistry};
use crate::text::concat_str;

verus! {

/// A refusal, as a gRPC status: a code and a message.
#[derive(Debug, Clone)]
pub struct Status {
    pub code: StatusCode,
    pub message: String,
}

impl Status {
    /// The status a provider failure is reported with: its code (see
    /// [`ProviderError::status_code`]) and its display text.
    pub fn from_provider_error(e: &ProviderError) -> (r: Status)
        ensures
            r.code == status_code_of(*e),
            r.message@ == provider_error_text(*e),
    {
        Status { code: e.status_code(), message: e.to_string() }
    }

    /// An internal failure of the store, with its message.
    pub fn internal(message: String) -> (r: Status)
        ensures
            r.code == StatusCode::Internal,
            r.message@ == message@,
    {
        Status { code: StatusCode::Internal, message }
    }
}

/// The username shown for stored credentials, if they hold one.
pub fn config_username(config: &ProviderConfig) -> (r: Option<String>)
    ensures
        match config {
            ProviderConfig::BasicAuth { username, .. } => r matches Some(u) && u@ == username@,
            ProviderConfig::Empty => r is None,
        },
{
    match config {
        ProviderConfig::BasicAuth { username, .. } => Some(username.clone()),
        ProviderConfig::Empty => None,
    }
}

/// Refuses a request for a session that does not exist.
pub fn ensure_session_exists(session_id: &str, exists: bool) -> (r: Result<(), Status>)
    ensures
        exists ==> r is Ok,
        !exists ==> (r matches Err(s) && s.code == StatusCode::NotFound && s.message@ == "session '"@
            + session_id@ + "' not found"@),
{
    if exists {
        Ok(())
    } else {
        let a = concat_str("session '", session_id);
        Err(Status { code: StatusCode::NotFound, message: a.concat("' not found") })
    }
}

/// The provider registered for `id`, or the refusal of a provider that this
/// server does not offer.
pub fn registered_provider(registry: &ProviderRegistry, id: ProviderId) -> (r: Result<&Arc<Provider>, Status>)
    ensures
        match registry.lookup(id) {
            Some(p) => r matches Ok(x) && **x == p,
            None => r matches Err(s) && s.code == StatusCode::NotFound && s.message@
                == "provider not available on this server"@,
        },
{
    match registry.get(id) {
        Some(p) => Ok(p),
        None => Err(
            Status {
                code: StatusCode::NotFound,
                message: String::from_str("provider not available on this server"),
            },
        ),
    }
}

/// How configuring a provider ends, once its credentials have been stored
/// and tried.
pub enum ConfigureEnd {
    /// The credentials work; the session is cached.
    Configured,
    /// The credentials were refused: delete the stored row again, and answer
    /// with this status.
    RollBack(Status),
}

/// Concludes configuring `provider` for `session_id` with the outcome of
/// trying the stored credentials: a working session goes into the cache;
/// a refusal leaves the cache as it was and asks for the stored row to be
/// removed, so that no known-bad credentials stay behind.
pub fn finish_configure<S>(
    cache: &mut ProviderCache<S>,
    session_id: &str,
    provider: ProviderId,
    outcome: Result<Arc<S>, ProviderError>,
) -> (r: ConfigureEnd)
    ensures
        match outcome {
            Ok(s) => r is Configured && final(cache)@ == old(cache)@.insert((session_id@, provider), *s),
            Err(e) => r matches ConfigureEnd::RollBack(st) && st.code == status_code_of(e) && st.message@
                == provider_error_text(e) && final(cache)@ == old(cache)@,
        },
{
    match outcome {
        Ok(s) => {
            cache.insert(session_id, provider, s);
            ConfigureEnd::Configured
        },
        Err(e) => ConfigureEnd::RollBack(Status::from_provider_error(&e)),
    }
}

/// Concludes unconfiguring `provider` for `session_id` once its stored row
/// has been deleted (`removed` says whether there was one): the cached
/// session goes too, and the answer is whether a row was removed.
pub fn finish_unconfigure<S>(cache: &mut ProviderCache<S>, session_id: &str, provider: ProviderId, removed: bool) -> (r:
    bool)
    ensures
        r == removed,
        final(cache)@ == old(cache)@.remove((session_id@, provider)),
{
    cache.evict(session_id, provider);
    removed
}

/// Unconfiguring a provider after configuring it succeeded leaves no cached
/// session for that session and provider, and the cache is what it would be
/// had the provider been unconfigured without configuring it first; the
/// answer is whether a stored row was removed.
pub proof fn law_unconfigure_after_configure<S>(
    cache: Map<(Seq<char>, ProviderId), S>,
    session_id: Seq<char>,
    provider: ProviderId,
    session: S,
)
    ensures
        !cache.insert((session_id, provider), session).remove((session_id, provider)).dom().contains(
            (session_id, provider),
        ),
        cache.insert((session_id, provider), session).remove((session_id, provider)) == cache.remove(
            (session_id, provider),
        ),
{
    crate::provider::cache::law_evict_undoes_insert(cache, (session_id, provider), session);
}

/// What a status request reports of one provider of a session.
#[derive(Debug, Clone)]
pub struct ProviderStatus {
    pub provider: ProviderId,
    pub is_configured: bool,
    pub username: Option<String>,
}

/// The status of `provider` given the credentials stored for it, if any.
pub fn provider_status(provider: ProviderId, config: Option<&ProviderConfig>) -> (r: ProviderStatus)
    ensures
        r.provider == provider,
        r.is_configured == config is Some,
        match config {
            Some(ProviderConfig::BasicAuth { username, .. }) => r.username matches Some(u) && u@ == username@,
            _ => r.username is None,
        },
{
    match config {
        Some(c) => ProviderStatus { provider, is_configured: true, username: config_username(c) },
        None => ProviderStatus { provider, is_configured: false, username: None },
    }
}

/// The statuses of the providers that a session has credentials for, one
/// per stored row, in the order of the rows.
pub fn configured_statuses(rows: &[(ProviderId, ProviderConfig)]) -> (r: Vec<ProviderStatus>)
    ensures
        r@.len() == rows@.len(),
        forall|i: int|
            0 <= i < rows@.len() ==> {
                &&& (#[trigger] r@[i]).provider == rows@[i].0
                &&& r@[i].is_configured
                &&& match rows@[i].1 {
                    ProviderConfig::BasicAuth { username, .. } => r@[i].username matches Some(u) && u@
                        == username@,
                    ProviderConfig::Empty => r@[i].username is None,
                }
            },
{
    let mut out: Vec<ProviderStatus> = Vec::new();
    let mut i: usize = 0;
    while i < rows.len()
        invariant
            i <= rows@.len(),
            out@.len() == i,
            forall|j: int|
                0 <= j < i ==> {
                    &&& (#[trigger] out@[j]).provider == rows@[j].0
                    &&& out@[j].is_configured
                    &&& match rows@[j].1 {
                        ProviderConfig::BasicAuth { username, .. } => out@[j].username matches Some(u) && u@
                            == username@,
                        ProviderConfig::Empty => out@[j].username is None,
                    }
                },
        decreases rows@.len() - i,
    {
        let (p, c) = &rows[i];
        out.push(ProviderStatus { provider: *p, is_configured: true, username: config_username(c) });
        i = i + 1;
    }
    out
}

/// What the provider listing reports of one registered provider.
#[derive(Debug, Clone)]
pub struct ProviderInfo {
    pub provider: ProviderId,
    pub name: &'static str,
    pub capabilities: Vec<Capability>,
}

/// The listing of the registered providers, one entry each, taken from
/// their metadata.
pub fn list_providers(registry: &ProviderRegistry) -> (r: Vec<ProviderInfo>)
    ensures
        r@.len() == registry.listing().len(),
        forall|i: int| 0 <= i < r@.len() ==> r@[i].provider == provider_id(#[trigger] registry.listing()[i]),
        forall|i: int|
            0 <= i < r@.len() ==> {
                &&& registry.lookup(#[trigger] r@[i].provider) is Some
                &&& r@[i].name@ == display_name(r@[i].provider)
                &&& r@[i].capabilities@ == capabilities_of(r@[i].provider)
            },
        forall|id: ProviderId| registry.lookup(id) is Some ==> exists|i: int| 0 <= i < r@.len() && r@[i].provider == id,
{
    let all = registry.all();
    let mut out: Vec<ProviderInfo> = Vec::new();
    let mut i: usize = 0;
    while i < all.len()
        invariant
            i <= all@.len(),
            all@.len() == registry.listing().len(),
            forall|j: int| 0 <= j < all@.len() ==> **all@[j] == registry.listing()[j],
            out@.len() == i,
            forall|j: int|
                0 <= j < i ==> {
                    &&& (#[trigger] out@[j]).provider == provider_id(**all@[j])
                    &&& out@[j].name@ == display_name(out@[j].provider)
                    &&& out@[j].capabilities@ == capabilities_of(out@[j].provider)
                },
        decreases all@.len() - i,
    {
        let m = all[i].metadata();
        let mut caps: Vec<Capability> = Vec::new();
        let mut k: usize = 0;
        while k < m.capabilities.len()
            invariant
                k <= m.capabilities@.len(),
                caps@ == m.capabilities@.take(k as int),
            decreases m.capabilities@.len() - k,
        {
            caps.push(m.capabilities[k]);
            assert(m.capabilities@.take(k + 1) =~= m.capabilities@.take(k as int).push(m.capabilities@[k as int]));
            k = k + 1;
        }
        assert(m.capabilities@.take(k as int) =~= m.capabilities@);
        out.push(ProviderInfo { provider: m.id, name: m.name, capabilities: caps });
        i = i + 1;
    }
    proof {
        assert forall|id: ProviderId| registry.lookup(id) is Some implies exists|j: int|
            0 <= j < out@.len() && out@[j].provider == id by {
            let j = choose|j: int| 0 <= j < all@.len() && provider_id(**all@[j]) == id;
            assert(out@[j].provider == id);
        }
    }
    out
}

} // verus!
