//! Decisions of the asset tool, which drives providers and the asset cache
//! from the command line: which provider a fetch may use, when a failed
//! fetch mints a fresh asset, and what the tool reports.

use vstd::prelude::*;

use crate::asset_cache::AssetCacheEntry;
use crate::provider::dam::LoginData;
use crate::provider::types::{provider_from_name, provider_name, urn_text, AssetId, MediaStream, ProviderId};
use crate::text::concat_str;

verus! {

/// The DAM authentication state that a login leaves on disk.
#[derive(Debug, Clone)]
pub struct DamStoredSession {
    pub user_code: String,
    pub damtomo_id: String,
    pub auth_token: String,
}

impl DamStoredSession {
    /// What to store after `user_code` logged in and DAM answered `data`.
    pub fn from_login(user_code: String, data: &LoginData) -> (r: Self)
        ensures
            r.user_code@ == user_code@,
            r.damtomo_id@ == data.damtomo_id@,
            r.auth_token@ == data.auth_token@,
    {
        DamStoredSession { user_code, damtomo_id: data.damtomo_id.clone(), auth_token: data.auth_token.clone() }
    }
}

/// The file, relative to the working directory, that holds the DAM session.
pub fn dam_dotfile_path() -> (r: String)
    ensures
        r@ == ".asset-tool.dam.json"@,
{
    String::from_str(".asset-tool.dam.json")
}

/// The kind of a stream, as reports name it.
pub fn describe_source(s: &MediaStream) -> (r: &'static str)
    ensures
        match s {
            MediaStream::Hls { .. } => r@ == "hls"@,
            MediaStream::DirectVideo { .. } => r@ == "direct_video"@,
            MediaStream::YouTubeDownload { .. } => r@ == "youtube_download"@,
        },
{
    match s {
        MediaStream::Hls { .. } => "hls",
        MediaStream::DirectVideo { .. } => "direct_video",
        MediaStream::YouTubeDownload { .. } => "youtube_download",
    }
}

/// The provider a `cache fetch` for `name` resolves assets with: only DAM
/// is wired up; other providers and unknown names are refused.
pub fn fetch_provider(name: &str) -> (r: Result<ProviderId, String>)
    ensures
        match provider_from_name(name@) {
            Some(ProviderId::Dam) => r == Ok::<ProviderId, String>(ProviderId::Dam),
            Some(p) => r matches Err(m) && m@ == "provider `"@ + provider_name(p)
                + "` is not yet wired up in asset-tool"@,
            None => r matches Err(m) && m@ == "unknown provider `"@ + name@
                + "`: Matching variant not found (try one of: dam, joysound, youtube)"@,
        },
{
    match ProviderId::from_name(name) {
        Some(ProviderId::Dam) => Ok(ProviderId::Dam),
        Some(p) => {
            let a = concat_str("provider `", p.as_str());
            Err(a.concat("` is not yet wired up in asset-tool"))
        },
        None => {
            let a = concat_str("unknown provider `", name);
            Err(a.concat("`: Matching variant not found (try one of: dam, joysound, youtube)"))
        },
    }
}

/// How many assets a `cache fetch` mints before it gives up. DAM's signed
/// playlist URLs are single-use, so a download that fails has burnt its URL
/// and only a fresh asset can be tried again.
pub const MAX_REMINT_ATTEMPTS: usize = 3;

/// What to do after the `attempt`-th fetch (counting from 1).
pub enum RemintNext<T, E> {
    Done(T),
    /// Mint a fresh asset and fetch again.
    Remint,
    /// Stop with the last failure.
    GiveUp(E),
}

/// The decision after a fetch: a success ends the command, and a failure is
/// retried with a fresh asset until [`MAX_REMINT_ATTEMPTS`] have been made.
pub fn after_fetch<T, E>(attempt: usize, outcome: Result<T, E>) -> (r: RemintNext<T, E>)
    requires
        1 <= attempt <= MAX_REMINT_ATTEMPTS,
    ensures
        match outcome {
            Ok(t) => r == RemintNext::<T, E>::Done(t),
            Err(e) => if attempt < MAX_REMINT_ATTEMPTS {
                r is Remint
            } else {
                r == RemintNext::<T, E>::GiveUp(e)
            },
        },
{
    match outcome {
        Ok(t) => RemintNext::Done(t),
        Err(e) => {
            if attempt < MAX_REMINT_ATTEMPTS {
                RemintNext::Remint
            } else {
                RemintNext::GiveUp(e)
            }
        },
    }
}

/// One line of a cache listing: `<asset id>\t<relative path>`.
pub open spec fn listing_line(e: AssetCacheEntry) -> Seq<char> {
    e.asset_id@ + "\t"@ + e.relative_path@
}

/// The lines that list the cache table: one per row, or `(empty)`.
pub fn listing_lines(entries: &[AssetCacheEntry]) -> (r: Vec<String>)
    ensures
        entries@.len() == 0 ==> r@.len() == 1 && r@[0]@ == "(empty)"@,
        entries@.len() > 0 ==> r@.len() == entries@.len() && forall|i: int|
            0 <= i < entries@.len() ==> #[trigger] r@[i]@ == listing_line(entries@[i]),
{
    let mut out: Vec<String> = Vec::new();
    if entries.len() == 0 {
        out.push(String::from_str("(empty)"));
        return out;
    }
    let mut i: usize = 0;
    while i < entries.len()
        invariant
            i <= entries@.len(),
            out@.len() == i,
            forall|j: int| 0 <= j < i ==> #[trigger] out@[j]@ == listing_line(entries@[j]),
        decreases entries@.len() - i,
    {
        let a = concat_str(entries[i].asset_id.as_str(), "\t");
        out.push(a.concat(entries[i].relative_path.as_str()));
        i = i + 1;
    }
    out
}

/// What `cache evict` reports.
pub fn evict_message(removed: bool, id: &AssetId, cache_dir: &str) -> (r: String)
    ensures
        removed ==> r@ == "evicted "@ + urn_text(id@) + " from cache at "@ + cache_dir@,
        !removed ==> r@ == "no row found for "@ + urn_text(id@) + " (cache dir: "@ + cache_dir@ + ")"@,
{
    let urn = id.to_string();
    if removed {
        let a = concat_str("evicted ", urn.as_str());
        let b = a.concat(" from cache at ");
        b.concat(cache_dir)
    } else {
        let a = concat_str("no row found for ", urn.as_str());
        let b = a.concat(" (cache dir: ");
        let c = b.concat(cache_dir);
        c.concat(")")
    }
}

} // verus!
