//! Domain types shared by all providers: provider identities, asset URNs,
//! capabilities, songs, lyrics, scoring data and media streams.

use std::time::Duration;

use vstd::prelude::*;

use crate::text::{chars_eq, chars_of, concat_str, find_char, first_index, lemma_first_index, string_of, subvec};

verus! {

/// Identifies which provider a piece of data came from.
#[derive(Debug, Clone, Copy, PartialEq, Eq, Hash, Structural)]
pub enum ProviderId {
    Dam,
    Joysound,
    YouTube,
}

/// The snake_case name of a provider, as used in URNs and stored rows.
pub open spec fn provider_name(p: ProviderId) -> Seq<char> {
    match p {
        ProviderId::Dam => "dam"@,
        ProviderId::Joysound => "joysound"@,
        ProviderId::YouTube => "you_tube"@,
    }
}

/// The provider whose name is `s`, if any (names are matched exactly).
pub open spec fn provider_from_name(s: Seq<char>) -> Option<ProviderId> {
    if s == "dam"@ {
        Some(ProviderId::Dam)
    } else if s == "joysound"@ {
        Some(ProviderId::Joysound)
    } else if s == "you_tube"@ {
        Some(ProviderId::YouTube)
    } else {
        None
    }
}

impl ProviderId {
    /// The provider's snake_case name.
    pub fn as_str(&self) -> (r: &'static str)
        ensures
            r@ == provider_name(*self),
    {
        match self {
            ProviderId::Dam => "dam",
            ProviderId::Joysound => "joysound",
            ProviderId::YouTube => "you_tube",
        }
    }

    /// The provider named `s`.
    pub fn from_name(s: &str) -> (r: Option<ProviderId>)
        ensures
            r == provider_from_name(s@),
    {
        let v = chars_of(s);
        let dam = chars_of("dam");
        let joy = chars_of("joysound");
        let yt = chars_of("you_tube");
        if chars_eq(v.as_slice(), dam.as_slice()) {
            Some(ProviderId::Dam)
        } else if chars_eq(v.as_slice(), joy.as_slice()) {
            Some(ProviderId::Joysound)
        } else if chars_eq(v.as_slice(), yt.as_slice()) {
            Some(ProviderId::YouTube)
        } else {
            None
        }
    }
}

/// Stable URN identifying a piece of media: `urn:<provider_id>:<body>`, where
/// `body` is provider-defined and may contain further colon-separated
/// qualifiers (DAM writes `urn:dam:contentsId:5778352`).
#[derive(Debug, Clone, PartialEq, Eq, Hash)]
pub struct AssetId {
    provider: ProviderId,
    body: String,
}

impl View for AssetId {
    type V = (ProviderId, Seq<char>);

    closed spec fn view(&self) -> (ProviderId, Seq<char>) {
        (self.provider, self.body@)
    }
}

/// The URN text of an asset id.
pub open spec fn urn_text(id: (ProviderId, Seq<char>)) -> Seq<char> {
    "urn:"@ + provider_name(id.0) + ":"@ + id.1
}

/// Why a URN failed to parse.
#[derive(Debug, Clone)]
pub enum AssetIdParseError {
    /// Not of the form `urn:<provider>:<body>`.
    BadShape(String),
    /// The provider segment names no known provider.
    UnknownProvider(String),
    /// Nothing after the provider segment.
    EmptyBody(String),
}

pub enum SpecAssetIdParseError {
    BadShape(Seq<char>),
    UnknownProvider(Seq<char>),
    EmptyBody(Seq<char>),
}

impl View for AssetIdParseError {
    type V = SpecAssetIdParseError;

    open spec fn view(&self) -> SpecAssetIdParseError {
        match self {
            AssetIdParseError::BadShape(s) => SpecAssetIdParseError::BadShape(s@),
            AssetIdParseError::UnknownProvider(s) => SpecAssetIdParseError::UnknownProvider(s@),
            AssetIdParseError::EmptyBody(s) => SpecAssetIdParseError::EmptyBody(s@),
        }
    }
}

/// The human-readable rendering of a URN parse error.
pub open spec fn asset_id_error_text(e: SpecAssetIdParseError) -> Seq<char> {
    match e {
        SpecAssetIdParseError::BadShape(s) => "expected URN of form `urn:<provider>:<body>`, got `"@ + s
            + "`"@,
        SpecAssetIdParseError::UnknownProvider(s) => "unknown provider `"@ + s + "`"@,
        SpecAssetIdParseError::EmptyBody(s) => "empty body in URN `"@ + s + "`"@,
    }
}

impl AssetIdParseError {
    /// The error's message, as it is displayed to users.
    pub fn to_string(&self) -> (r: String)
        ensures
            r@ == asset_id_error_text(self@),
    {
        let (lead, s) = match self {
            AssetIdParseError::BadShape(s) => ("expected URN of form `urn:<provider>:<body>`, got `", s),
            AssetIdParseError::UnknownProvider(s) => ("unknown provider `", s),
            AssetIdParseError::EmptyBody(s) => ("empty body in URN `", s),
        };
        let a = concat_str(lead, s.as_str());
        a.concat("`")
    }
}

/// Parsing a URN: after `urn:`, the text up to the next `:` names the
/// provider and everything after it, colons included, is the body.
pub open spec fn parse_urn(s: Seq<char>) -> Result<(ProviderId, Seq<char>), SpecAssetIdParseError> {
    if !(s.len() >= 4 && s.take(4) == "urn:"@) {
        Err(SpecAssetIdParseError::BadShape(s))
    } else {
        let rest = s.skip(4);
        let c = first_index(rest, ':');
        if c >= rest.len() {
            Err(SpecAssetIdParseError::BadShape(s))
        } else if c + 1 == rest.len() {
            Err(SpecAssetIdParseError::EmptyBody(s))
        } else {
            match provider_from_name(rest.take(c)) {
                Some(p) => Ok((p, rest.skip(c + 1))),
                None => Err(SpecAssetIdParseError::UnknownProvider(rest.take(c))),
            }
        }
    }
}

impl AssetId {
    pub fn new(provider: ProviderId, body: String) -> (r: Self)
        ensures
            r@ == (provider, body@),
    {
        AssetId { provider, body }
    }

    pub fn provider(&self) -> (r: ProviderId)
        ensures
            r == self@.0,
    {
        self.provider
    }

    pub fn body(&self) -> (r: &str)
        ensures
            r@ == self@.1,
    {
        self.body.as_str()
    }

    /// The URN text, `urn:<provider>:<body>`.
    pub fn to_string(&self) -> (r: String)
        ensures
            r@ == urn_text(self@),
    {
        let a = concat_str("urn:", self.provider.as_str());
        let b = a.concat(":");
        b.concat(self.body.as_str())
    }

    /// Parses a URN (see [`parse_urn`]).
    pub fn parse(s: &str) -> (r: Result<AssetId, AssetIdParseError>)
        ensures
            match parse_urn(s@) {
                Ok(id) => r matches Ok(x) && x@ == id,
                Err(e) => r matches Err(x) && x@ == e,
            },
    {
        let v = chars_of(s);
        let prefix = chars_of("urn:");
        proof {
            reveal_strlit("urn:");
        }
        if !(v.len() >= 4 && crate::text::starts_with(v.as_slice(), prefix.as_slice())) {
            return Err(AssetIdParseError::BadShape(String::from_str(s)));
        }
        assert(v@.take(4) == prefix@);
        let rest = subvec(v.as_slice(), 4, v.len());
        assert(rest@ =~= v@.skip(4));
        proof {
            lemma_first_index(rest@, ':');
        }
        match find_char(rest.as_slice(), ':') {
            None => Err(AssetIdParseError::BadShape(String::from_str(s))),
            Some(c) => {
                if c + 1 == rest.len() {
                    return Err(AssetIdParseError::EmptyBody(String::from_str(s)));
                }
                let name = subvec(rest.as_slice(), 0, c);
                let body = subvec(rest.as_slice(), c + 1, rest.len());
                assert(name@ =~= rest@.take(c as int));
                assert(body@ =~= rest@.skip(c + 1));
                let name_s = string_of(name.as_slice());
                match ProviderId::from_name(name_s.as_str()) {
                    Some(p) => Ok(AssetId { provider: p, body: string_of(body.as_slice()) }),
                    None => Err(AssetIdParseError::UnknownProvider(name_s)),
                }
            },
        }
    }
}

impl std::str::FromStr for AssetId {
    type Err = AssetIdParseError;

    fn from_str(s: &str) -> (r: Result<AssetId, AssetIdParseError>)
        ensures
            match parse_urn(s@) {
                Ok(id) => r matches Ok(x) && x@ == id,
                Err(e) => r matches Err(x) && x@ == e,
            },
    {
        AssetId::parse(s)
    }
}

impl std::str::FromStr for ProviderId {
    type Err = String;

    /// The provider named `s` (see [`ProviderId::from_name`]); an unknown
    /// name is refused with `Matching variant not found`.
    fn from_str(s: &str) -> (r: Result<ProviderId, String>)
        ensures
            match provider_from_name(s@) {
                Some(p) => r == Ok::<ProviderId, String>(p),
                None => r matches Err(m) && m@ == "Matching variant not found"@,
            },
    {
        match ProviderId::from_name(s) {
            Some(p) => Ok(p),
            None => Err("Matching variant not found".to_owned()),
        }
    }
}

/// A capability that a provider may support.
#[derive(Debug, Clone, Copy, PartialEq, Eq, Structural)]
pub enum Capability {
    Search,
    Lyrics,
    Scoring,
}

/// Static, per-provider-type description: identity, display name, supported
/// capabilities, and whether the provider needs per-session credentials.
#[derive(Debug, Clone, Copy)]
pub struct ProviderMetadata {
    pub id: ProviderId,
    pub name: &'static str,
    pub capabilities: &'static [Capability],
    pub requires_configuration: bool,
}

/// A song as returned from any provider.
#[derive(Debug, Clone)]
pub struct Song {
    pub provider: ProviderId,
    pub id: String,
    pub title: String,
    pub artist: String,
    /// Play time in whole seconds.
    pub duration: Option<u64>,
    pub extra: SongExtra,
}

/// A song as returned from a search endpoint: only the fields that list
/// results carry.
#[derive(Debug, Clone)]
pub struct SongResult {
    pub provider: ProviderId,
    pub id: String,
    pub title: String,
    pub artist: String,
}

/// Provider-specific song metadata.
#[derive(Debug, Clone)]
pub enum SongExtra {
    /// No provider-specific metadata.
    Generic,
    Dam(DamSongExtra),
    Joysound(JoysoundSongExtra),
    YouTube(YouTubeSongExtra),
}

#[derive(Debug, Clone, Default)]
pub struct DamSongExtra {
    pub vocal_types: Vec<DamVocalType>,
    pub has_scoring: bool,
    pub score_level: u32,
    pub technical_level: u32,
    pub shift: i32,
}

#[derive(Debug, Clone, Copy, PartialEq, Eq, Structural)]
pub enum DamVocalType {
    Normal,
    GuideMale,
    GuideFemale,
}

#[derive(Debug, Clone)]
pub struct JoysoundSongExtra {
    pub lyricist: Option<String>,
    pub composer: Option<String>,
    pub reading: Option<String>,
    pub fadeout_time: Option<Duration>,
}

#[derive(Debug, Clone)]
pub struct YouTubeSongExtra {
    pub channel: Option<String>,
    pub description: Option<String>,
    pub view_count: Option<u64>,
    pub caption_languages: Vec<String>,
}

#[derive(Debug, Clone)]
pub struct Artist {
    pub provider: ProviderId,
    pub id: String,
    pub name: String,
}

/// One page of search results.
#[derive(Debug, Clone)]
pub struct SearchResults<T> {
    pub items: Vec<T>,
    pub total_count: u32,
    pub has_more: bool,
}

/// Lyrics come in different shapes depending on the provider.
#[derive(Debug, Clone)]
pub enum Lyrics {
    /// Lyrics are embedded in the stream (DAM).
    PreRendered,
    /// Raw telop data the client must render (Joysound).
    Telop(TelopData),
    /// Timed text captions (YouTube and others).
    Captions(Vec<CaptionTrack>),
    /// User-provided plain-text lyrics.
    AdHoc(String),
}

#[derive(Debug, Clone)]
pub struct TelopData {
    pub segments: Vec<TelopSegment>,
}

#[derive(Debug, Clone)]
pub struct TelopSegment {
    pub text: String,
    pub furigana: Option<String>,
    pub romaji: Option<String>,
    pub start_ms: u64,
    pub end_ms: u64,
}

#[derive(Debug, Clone)]
pub struct CaptionTrack {
    pub language: String,
    pub label: String,
    pub segments: Vec<CaptionSegment>,
}

#[derive(Debug, Clone)]
pub struct CaptionSegment {
    pub text: String,
    pub start_ms: u64,
    pub duration_ms: u64,
}

/// Scoring / piano roll data.
#[derive(Debug, Clone)]
pub struct ScoringData {
    pub notes: Vec<ScoringNote>,
}

#[derive(Debug, Clone)]
pub struct ScoringNote {
    pub pitch: u8,
    pub start_ms: u64,
    pub duration_ms: u64,
}

/// What a provider hands out to play: a stable URN plus the remote location
/// to fetch it from.
#[derive(Debug, Clone)]
pub struct Asset {
    pub id: AssetId,
    pub source: MediaStream,
}

/// How to actually play a song.
#[derive(Debug, Clone)]
pub enum MediaStream {
    /// HLS stream (DAM).
    Hls { url_high: String, url_low: Option<String> },
    /// Direct video URL, possibly with separate audio (Joysound).
    DirectVideo { video_url: String, audio_url: Option<String> },
    /// YouTube video to be downloaded via yt-dlp.
    YouTubeDownload { video_id: String },
}

/// Per-session provider credentials. Stored configs are either a
/// username/password pair or empty (for providers that need none).
#[derive(Debug, Clone)]
pub enum ProviderConfig {
    BasicAuth { username: String, password: String },
    Empty,
}

} // verus!

verus! {

/// Every provider's name parses back to that provider, and names hold no `:`.
pub proof fn law_provider_name_round_trip(p: ProviderId)
    ensures
        provider_from_name(provider_name(p)) == Some(p),
        forall|i: int| 0 <= i < provider_name(p).len() ==> provider_name(p)[i] != ':',
{
    reveal_strlit("dam");
    reveal_strlit("joysound");
    reveal_strlit("you_tube");
    assert("dam"@.len() != "joysound"@.len());
    assert("dam"@.len() != "you_tube"@.len());
    assert("joysound"@[0] != "you_tube"@[0]);
}

/// Rendering an asset id as a URN and parsing it back gives the same id,
/// for every id with a non-empty body (the only ones a parse can yield).
pub proof fn law_urn_round_trip(id: (ProviderId, Seq<char>))
    requires
        id.1.len() > 0,
    ensures
        parse_urn(urn_text(id)) == Ok::<(ProviderId, Seq<char>), SpecAssetIdParseError>(id),
{
    reveal_strlit("urn:");
    reveal_strlit(":");
    law_provider_name_round_trip(id.0);
    let name = provider_name(id.0);
    let s = urn_text(id);
    assert(s.take(4) =~= "urn:"@);
    let rest = s.skip(4);
    assert(rest =~= name + ":"@ + id.1);
    assert(rest[name.len() as int] == ':');
    crate::text::lemma_first_index_unique(rest, ':', name.len() as int);
    assert(rest.take(name.len() as int) =~= name);
    assert(rest.skip(name.len() + 1int) =~= id.1);
}

/// A URN that parses is exactly the rendering of the id it parses to.
pub proof fn law_urn_parse_then_render(s: Seq<char>)
    requires
        parse_urn(s) is Ok,
    ensures
        urn_text(parse_urn(s)->Ok_0) == s,
        parse_urn(s)->Ok_0.1.len() > 0,
{
    reveal_strlit("urn:");
    reveal_strlit(":");
    let rest = s.skip(4);
    let c = first_index(rest, ':');
    lemma_first_index(rest, ':');
    let p = provider_from_name(rest.take(c))->Some_0;
    assert(provider_name(p) == rest.take(c)) by {
        reveal_strlit("dam");
        reveal_strlit("joysound");
        reveal_strlit("you_tube");
    }
    assert(rest =~= rest.take(c) + ":"@ + rest.skip(c + 1));
    assert(s =~= s.take(4) + rest);
}

} // verus!
