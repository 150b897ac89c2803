//! Upstream karaoke data providers: the static registry side (`Provider`,
//! `ProviderRegistry`) and the per-session cache of configured sessions.

pub mod cache;
pub mod dam;
pub mod error;
pub mod joysound;
pub mod types;
pub mod youtube;

use std::sync::Arc;

use vstd::prelude::*;

use dam::DamProvider;
use joysound::JoysoundProvider;
use types::{Capability, ProviderConfig, ProviderId, ProviderMetadata};
use youtube::YouTubeProvider;
use crate::tools::YtDlp;

verus! {

/// The one-element sequence of a present value, or the empty one.
pub open spec fn present<T>(o: Option<T>) -> Seq<T> {
    match o {
        Some(x) => seq![x],
        None => seq![],
    }
}

/// One provider per provider type per server, shared across all sessions.
pub enum Provider {
    Dam(DamProvider),
    Joysound(JoysoundProvider),
    YouTube(Arc<YouTubeProvider>),
}

/// The id of a provider.
pub open spec fn provider_id(p: Provider) -> ProviderId {
    match p {
        Provider::Dam(_) => ProviderId::Dam,
        Provider::Joysound(_) => ProviderId::Joysound,
        Provider::YouTube(_) => ProviderId::YouTube,
    }
}

/// The display name of each provider.
pub open spec fn display_name(id: ProviderId) -> Seq<char> {
    match id {
        ProviderId::Dam => "DAM"@,
        ProviderId::Joysound => "Joysound"@,
        ProviderId::YouTube => "YouTube"@,
    }
}

/// What each provider can do beyond songs and streams.
pub open spec fn capabilities_of(id: ProviderId) -> Seq<Capability> {
    match id {
        ProviderId::Dam => seq![Capability::Search, Capability::Scoring],
        ProviderId::Joysound => seq![Capability::Search, Capability::Lyrics],
        ProviderId::YouTube => seq![Capability::Lyrics],
    }
}

impl Provider {
    /// The provider's static description.
    pub fn metadata(&self) -> (r: ProviderMetadata)
        ensures
            r.id == provider_id(*self),
            r.name@ == display_name(provider_id(*self)),
            r.capabilities@ == capabilities_of(provider_id(*self)),
            r.requires_configuration == (provider_id(*self) != ProviderId::YouTube),
    {
        match self {
            Provider::Dam(_) => DamProvider::metadata(),
            Provider::Joysound(_) => JoysoundProvider::metadata(),
            Provider::YouTube(_) => YouTubeProvider::metadata(),
        }
    }

    /// The id of this provider.
    pub fn id(&self) -> (r: ProviderId)
        ensures
            r == provider_id(*self),
    {
        self.metadata().id
    }

    /// Turns the flat username/password of a configure request into this
    /// provider's stored config; providers without credentials store none.
    pub fn build_config_from_basic_auth(&self, username: String, password: String) -> (r: ProviderConfig)
        ensures
            provider_id(*self) == ProviderId::YouTube ==> r is Empty,
            provider_id(*self) != ProviderId::YouTube ==> (r matches ProviderConfig::BasicAuth {
                username: u,
                password: p,
            } && u@ == username@ && p@ == password@),
    {
        match self {
            Provider::Dam(_) => dam::DamConfig { username, password }.into_config(),
            Provider::Joysound(_) => joysound::JoysoundConfig { username, password }.into_config(),
            Provider::YouTube(_) => ProviderConfig::Empty,
        }
    }

    /// The username to display for a stored config, when the provider has
    /// usernames and the config holds one.
    pub fn username_from_config(&self, config: &ProviderConfig) -> (r: Option<String>)
        ensures
            match (provider_id(*self), config) {
                (ProviderId::YouTube, _) => r is None,
                (_, ProviderConfig::BasicAuth { username, .. }) => r matches Some(u) && u@ == username@,
                (_, ProviderConfig::Empty) => r is None,
            },
    {
        match self {
            Provider::Dam(_) => match dam::DamConfig::from_config(config) {
                Ok(c) => Some(c.username),
                Err(_) => None,
            },
            Provider::Joysound(_) => match joysound::JoysoundConfig::from_config(config) {
                Ok(c) => Some(c.username),
                Err(_) => None,
            },
            Provider::YouTube(_) => None,
        }
    }
}

/// The providers available on this server, at most one per provider id.
pub struct ProviderRegistry {
    dam: Option<Arc<Provider>>,
    joysound: Option<Arc<Provider>>,
    youtube: Option<Arc<Provider>>,
}

impl Default for ProviderRegistry {
    fn default() -> (r: Self)
        ensures
            forall|id: ProviderId| r.lookup(id) is None,
    {
        ProviderRegistry::new()
    }
}

impl ProviderRegistry {
    /// Each slot holds only a provider of its own id.
    #[verifier::type_invariant]
    spec fn slots_match(self) -> bool {
        &&& self.dam matches Some(p) ==> provider_id(*p) == ProviderId::Dam
        &&& self.joysound matches Some(p) ==> provider_id(*p) == ProviderId::Joysound
        &&& self.youtube matches Some(p) ==> provider_id(*p) == ProviderId::YouTube
    }

    /// The registered provider of each id.
    pub closed spec fn lookup(self, id: ProviderId) -> Option<Provider> {
        let slot = match id {
            ProviderId::Dam => self.dam,
            ProviderId::Joysound => self.joysound,
            ProviderId::YouTube => self.youtube,
        };
        match slot {
            Some(p) => Some(*p),
            None => None,
        }
    }

    /// An empty registry.
    pub fn new() -> (r: Self)
        ensures
            forall|id: ProviderId| r.lookup(id) is None,
    {
        ProviderRegistry { dam: None, joysound: None, youtube: None }
    }

    /// Registers `provider` under its id, replacing any provider of that id.
    pub fn register(&mut self, provider: Arc<Provider>)
        ensures
            final(self).lookup(provider_id(*provider)) == Some(*provider),
            forall|id: ProviderId|
                id != provider_id(*provider) ==> final(self).lookup(id) == old(self).lookup(id),
    {
        proof {
            use_type_invariant(&*self);
        }
        let id = provider.id();
        match id {
            ProviderId::Dam => {
                self.dam = Some(provider);
            },
            ProviderId::Joysound => {
                self.joysound = Some(provider);
            },
            ProviderId::YouTube => {
                self.youtube = Some(provider);
            },
        }
    }

    /// The provider registered under `id`.
    pub fn get(&self, id: ProviderId) -> (r: Option<&Arc<Provider>>)
        ensures
            match self.lookup(id) {
                Some(p) => r matches Some(x) && **x == p,
                None => r is None,
            },
            r matches Some(x) ==> provider_id(**x) == id,
    {
        proof {
            use_type_invariant(self);
        }
        match id {
            ProviderId::Dam => self.dam.as_ref(),
            ProviderId::Joysound => self.joysound.as_ref(),
            ProviderId::YouTube => self.youtube.as_ref(),
        }
    }

    /// The registered providers in the order DAM, Joysound, YouTube.
    pub open spec fn listing(self) -> Seq<Provider> {
        present(self.lookup(ProviderId::Dam)) + present(self.lookup(ProviderId::Joysound)) + present(
            self.lookup(ProviderId::YouTube),
        )
    }

    /// All registered providers (in the order DAM, Joysound, YouTube).
    pub fn all(&self) -> (r: Vec<&Arc<Provider>>)
        ensures
            r@.len() == self.listing().len(),
            forall|i: int| 0 <= i < r@.len() ==> **r@[i] == self.listing()[i],
            forall|i: int| 0 <= i < r@.len() ==> self.lookup(provider_id(**r@[i])) == Some(**r@[i]),
            forall|id: ProviderId|
                self.lookup(id) is Some ==> exists|i: int| 0 <= i < r@.len() && provider_id(**r@[i]) == id,
    {
        proof {
            use_type_invariant(self);
        }
        let mut out: Vec<&Arc<Provider>> = Vec::new();
        if let Some(p) = &self.dam {
            out.push(p);
        }
        if let Some(p) = &self.joysound {
            out.push(p);
        }
        if let Some(p) = &self.youtube {
            out.push(p);
        }
        proof {
            assert forall|id: ProviderId| self.lookup(id) is Some implies exists|i: int|
                0 <= i < out@.len() && provider_id(**out@[i]) == id by {
                let n = out@.len();
                if id == ProviderId::YouTube {
                    assert(provider_id(**out@[n - 1]) == id);
                } else if id == ProviderId::Joysound {
                    if self.youtube is Some {
                        assert(provider_id(**out@[n - 2]) == id);
                    } else {
                        assert(provider_id(**out@[n - 1]) == id);
                    }
                } else {
                    assert(provider_id(**out@[0]) == id);
                }
            }
        }
        out
    }
}

/// What `register(p)` does to a registry (its contract): the provider is
/// found under its id, and every other id keeps what it had.
pub open spec fn register_step(before: ProviderRegistry, p: Provider, after: ProviderRegistry) -> bool {
    &&& after.lookup(provider_id(p)) == Some(p)
    &&& forall|id: ProviderId| id != provider_id(p) ==> after.lookup(id) == before.lookup(id)
}

/// The last of `ps` whose id is `id`, if any.
pub open spec fn last_registered(ps: Seq<Provider>, id: ProviderId) -> Option<Provider>
    decreases ps.len(),
{
    if ps.len() == 0 {
        None
    } else if provider_id(ps.last()) == id {
        Some(ps.last())
    } else {
        last_registered(ps.drop_last(), id)
    }
}

/// A registry that starts empty and has `ps` registered in turn (the
/// registries `rs[0]`, ..., `rs[n]` in between) holds, under each id, the
/// last provider of that id that was registered, and nothing under an id
/// that none of them has.
pub proof fn law_registry_after_registrations(rs: Seq<ProviderRegistry>, ps: Seq<Provider>)
    requires
        rs.len() == ps.len() + 1,
        forall|id: ProviderId| (#[trigger] rs[0].lookup(id)) is None,
        forall|i: int| 0 <= i < ps.len() ==> register_step(rs[i], #[trigger] ps[i], rs[i + 1]),
    ensures
        forall|id: ProviderId| #[trigger] rs.last().lookup(id) == last_registered(ps, id),
    decreases ps.len(),
{
    if ps.len() > 0 {
        let n = ps.len() as int;
        let rs0 = rs.drop_last();
        let ps0 = ps.drop_last();
        assert forall|i: int| 0 <= i < ps0.len() implies register_step(rs0[i], #[trigger] ps0[i], rs0[i + 1]) by {
            assert(ps0[i] == ps[i] && rs0[i] == rs[i] && rs0[i + 1] == rs[i + 1]);
        }
        assert(rs0[0] == rs[0]);
        law_registry_after_registrations(rs0, ps0);
        assert(register_step(rs[n - 1], ps[n - 1], rs[n]));
        assert(rs0.last() == rs[n - 1]);
        assert(ps.last() == ps[n - 1]);
    }
}

/// The providers this server offers: DAM and Joysound always, and YouTube
/// when a yt-dlp executable was found.
pub fn builtin_registry(ytdlp: Option<Arc<YtDlp>>) -> (r: ProviderRegistry)
    ensures
        r.lookup(ProviderId::Dam) == Some(Provider::Dam(DamProvider)),
        r.lookup(ProviderId::Joysound) == Some(Provider::Joysound(JoysoundProvider)),
        match ytdlp {
            Some(t) => r.lookup(ProviderId::YouTube) matches Some(Provider::YouTube(y)) && y.ytdlp == t,
            None => r.lookup(ProviderId::YouTube) is None,
        },
{
    let mut registry = ProviderRegistry::new();
    registry.register(Arc::new(Provider::Dam(DamProvider)));
    registry.register(Arc::new(Provider::Joysound(JoysoundProvider)));
    if let Some(t) = ytdlp {
        registry.register(Arc::new(Provider::YouTube(YouTubeProvider::new(t))));
    }
    registry
}

} // verus!
