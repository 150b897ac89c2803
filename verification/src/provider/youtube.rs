//! The YouTube provider, backed by a local yt-dlp.

use std::sync::Arc;

use vstd::prelude::*;

use super::error::ProviderError;
use super::types::{Capability, Lyrics, MediaStream, ProviderId, ProviderMetadata, Song};
use crate::tools::YtDlp;

verus! {

/// The YouTube provider. It is stateless: every session shares it.
pub struct YouTubeProvider {
    pub ytdlp: Arc<YtDlp>,
}

impl YouTubeProvider {
    pub fn new(ytdlp: Arc<YtDlp>) -> (r: Arc<Self>)
        ensures
            r.ytdlp == ytdlp,
    {
        Arc::new(YouTubeProvider { ytdlp })
    }

    /// YouTube offers lyrics (captions) and needs no credentials.
    pub fn metadata() -> (r: ProviderMetadata)
        ensures
            r.id == ProviderId::YouTube,
            r.name@ == "YouTube"@,
            r.capabilities@ == seq![Capability::Lyrics],
            !r.requires_configuration,
    {
        let caps: &'static [Capability] = &[Capability::Lyrics];
        assert(caps@ =~= seq![Capability::Lyrics]);
        ProviderMetadata {
            id: ProviderId::YouTube,
            name: "YouTube",
            capabilities: caps,
            requires_configuration: false,
        }
    }

    /// Song metadata is not available from YouTube yet.
    pub fn get_song(&self, song_id: &str) -> (r: Result<Song, ProviderError>)
        ensures
            r matches Err(ProviderError::NotSupported),
    {
        Err(ProviderError::NotSupported)
    }

    /// Streams are not available from YouTube yet.
    pub fn get_stream(&self, song_id: &str) -> (r: Result<MediaStream, ProviderError>)
        ensures
            r matches Err(ProviderError::NotSupported),
    {
        Err(ProviderError::NotSupported)
    }

    /// Captions are not available from YouTube yet.
    pub fn get_lyrics(&self, song_id: &str) -> (r: Result<Lyrics, ProviderError>)
        ensures
            r matches Err(ProviderError::NotSupported),
    {
        Err(ProviderError::NotSupported)
    }
}

} // verus!
