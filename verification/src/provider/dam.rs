//! The DAM provider: its credentials, the envelopes and payloads of its two
//! upstream APIs (Minsei and DKWebsys), and how those become domain values.
//! The HTTP exchanges themselves are performed by the caller.

use vstd::prelude::*;
use vstd::utf8::encode_utf8;

use super::error::ProviderError;
use super::types::{
    Artist, Capability, DamSongExtra, DamVocalType, MediaStream, ProviderConfig, ProviderId,
    ProviderMetadata, SearchResults, Song, SongExtra, SongResult,
};
use crate::text::{
    chars_eq, chars_of, concat_str, decimal, decimal_string, decimal_string_u128, parse_i32,
    parse_i32_spec, parse_u64, parse_u64_spec, signed_decimal, signed_decimal_string, string_of,
    subvec, trim, trim_chars,
};

verus! {

// ---------------------------------------------------------------------------
// Credentials and metadata
// ---------------------------------------------------------------------------

/// DAM member credentials.
#[derive(Debug, Clone)]
pub struct DamConfig {
    pub username: String,
    pub password: String,
}

impl DamConfig {
    /// Reads credentials out of a stored config; an empty config is refused
    /// with the message a JSON decoder gives for `null`.
    pub fn from_config(config: &ProviderConfig) -> (r: Result<DamConfig, String>)
        ensures
            match config {
                ProviderConfig::BasicAuth { username, password } => r matches Ok(c) && c.username@
                    == username@ && c.password@ == password@,
                ProviderConfig::Empty => r matches Err(m) && m@
                    == "invalid type: null, expected struct DamConfig"@,
            },
    {
        match config {
            ProviderConfig::BasicAuth { username, password } => Ok(
                DamConfig { username: username.clone(), password: password.clone() },
            ),
            ProviderConfig::Empty => Err(String::from_str("invalid type: null, expected struct DamConfig")),
        }
    }

    /// The stored form of these credentials.
    pub fn into_config(self) -> (r: ProviderConfig)
        ensures
            r matches ProviderConfig::BasicAuth { username, password } && username@ == self.username@
                && password@ == self.password@,
    {
        ProviderConfig::BasicAuth { username: self.username, password: self.password }
    }
}

/// The DAM provider (stateless; sessions hold the credentials).
pub struct DamProvider;

impl DamProvider {
    /// DAM supports search and scoring, and needs per-session credentials.
    pub fn metadata() -> (r: ProviderMetadata)
        ensures
            r.id == ProviderId::Dam,
            r.name@ == "DAM"@,
            r.capabilities@ == seq![Capability::Search, Capability::Scoring],
            r.requires_configuration,
    {
        let caps: &'static [Capability] = &[Capability::Search, Capability::Scoring];
        assert(caps@ =~= seq![Capability::Search, Capability::Scoring]);
        ProviderMetadata { id: ProviderId::Dam, name: "DAM", capabilities: caps, requires_configuration: true }
    }

    /// The credentials a DAM session is opened with, or why there are none.
    pub fn credentials(config: Option<&ProviderConfig>) -> (r: Result<DamConfig, ProviderError>)
        ensures
            match config {
                None => r matches Err(ProviderError::AuthFailed(m)) && m@ == "DAM requires username/password"@,
                Some(ProviderConfig::BasicAuth { username, password }) => r matches Ok(c) && c.username@
                    == username@ && c.password@ == password@,
                Some(ProviderConfig::Empty) => r matches Err(ProviderError::AuthFailed(m)) && m@
                    == "DAM expects username/password config: "@
                    + "invalid type: null, expected struct DamConfig"@,
            },
    {
        match config {
            None => Err(ProviderError::AuthFailed(String::from_str("DAM requires username/password"))),
            Some(c) => match DamConfig::from_config(c) {
                Ok(cfg) => Ok(cfg),
                Err(e) => Err(
                    ProviderError::AuthFailed(
                        concat_str("DAM expects username/password config: ", e.as_str()),
                    ),
                ),
            },
        }
    }
}

// ---------------------------------------------------------------------------
// Envelopes
// ---------------------------------------------------------------------------

/// How many times a failed Minsei request is tried again (transport
/// failures only, see [`ProviderError::is_retryable`]).
pub const MINSEI_MAX_RETRIES: usize = 3;

/// The shortest wait before such a retry, in milliseconds; waits grow
/// exponentially.
pub const MINSEI_MIN_DELAY_MS: u64 = 200;

/// The status fields of a Minsei response.
#[derive(Debug, Clone)]
pub struct MinseiResponseBase {
    pub message: String,
    pub status: String,
    pub status_code: String,
}

/// Minsei signals success with status code `0000`, and `1005` while a
/// paginated listing continues; anything else is an upstream error.
pub fn check_minsei(base: &MinseiResponseBase) -> (r: Result<(), ProviderError>)
    ensures
        (base.status_code@ == "0000"@ || base.status_code@ == "1005"@) ==> r is Ok,
        !(base.status_code@ == "0000"@ || base.status_code@ == "1005"@) ==> (r matches Err(
            ProviderError::Upstream(m),
        ) && m@ == base.status@ + ": "@ + base.message@),
{
    let code = chars_of(base.status_code.as_str());
    let ok1 = chars_of("0000");
    let ok2 = chars_of("1005");
    if chars_eq(code.as_slice(), ok1.as_slice()) || chars_eq(code.as_slice(), ok2.as_slice()) {
        Ok(())
    } else {
        let a = base.status.clone().concat(": ");
        Err(ProviderError::Upstream(a.concat(base.message.as_str())))
    }
}

/// The `result` object of a DKWebsys response.
#[derive(Debug, Clone)]
pub struct DkwebsysResult {
    pub status_code: String,
    pub message: String,
    pub detail_message: Option<String>,
}

/// DKWebsys signals success with status code `0000` only.
pub fn check_dkwebsys(result: &DkwebsysResult) -> (r: Result<(), ProviderError>)
    ensures
        result.status_code@ == "0000"@ ==> r is Ok,
        result.status_code@ != "0000"@ ==> (r matches Err(ProviderError::Upstream(m)) && m@
            == result.status_code@ + " "@ + result.message@ + ": "@ + match result.detail_message {
            Some(d) => d@,
            None => Seq::<char>::empty(),
        }),
{
    let code = chars_of(result.status_code.as_str());
    let ok = chars_of("0000");
    if chars_eq(code.as_slice(), ok.as_slice()) {
        Ok(())
    } else {
        let a = result.status_code.clone().concat(" ");
        let b = a.concat(result.message.as_str());
        let c = b.concat(": ");
        let d = match &result.detail_message {
            Some(d) => c.concat(d.as_str()),
            None => {
                let e: Vec<char> = Vec::new();
                let es = string_of(e.as_slice());
                c.concat(es.as_str())
            },
        };
        Err(ProviderError::Upstream(d))
    }
}

// ---------------------------------------------------------------------------
// Payloads
// ---------------------------------------------------------------------------

#[derive(Debug, Clone)]
pub struct LoginPayload {
    pub data: LoginData,
}

#[derive(Debug, Clone)]
pub struct LoginData {
    pub auth_token: String,
    pub damtomo_id: String,
}

#[derive(Debug, Clone)]
pub struct StreamingUrlsPayload {
    pub list: Vec<StreamingUrlsListItem>,
}

#[derive(Debug, Clone)]
pub struct StreamingUrlsListItem {
    pub duet: String,
    pub high_bitrate_url: String,
    pub low_bitrate_url: String,
}

#[derive(Debug, Clone)]
pub struct GetMusicDetailInfoPayload {
    pub data: GetMusicDetailInfoData,
    pub list: Vec<GetMusicDetailInfoListGroup>,
}

#[derive(Debug, Clone)]
pub struct GetMusicDetailInfoData {
    pub request_no: String,
    pub title: String,
    pub artist: String,
}

#[derive(Debug, Clone)]
pub struct GetMusicDetailInfoListGroup {
    pub items: Vec<GetMusicDetailInfoItem>,
}

#[derive(Debug, Clone)]
pub struct GetMusicDetailInfoItem {
    pub playtime: String,
    pub guide_vocal: String,
    pub score_flag: String,
    pub score_level: u32,
    pub technical_level: u32,
    pub shift: String,
}

#[derive(Debug, Clone)]
pub struct DamPaginationMeta {
    pub total_count: u32,
    pub has_next: String,
}

#[derive(Debug, Clone)]
pub struct PaginatedPayload<I> {
    pub data: DamPaginationMeta,
    pub list: Vec<I>,
}

#[derive(Debug, Clone)]
pub struct SearchMusicListItem {
    pub request_no: String,
    pub title: String,
    pub artist: String,
}

#[derive(Debug, Clone)]
pub struct SearchArtistListItem {
    pub artist: String,
    pub artist_code: i64,
}

} // verus!

verus! {

// ---------------------------------------------------------------------------
// Conversions
// ---------------------------------------------------------------------------

/// DAM's key shift field: blank is 0, a leading `+` is allowed, anything
/// that is not an `i32` counts as 0.
pub open spec fn shift_value(s: Seq<char>) -> i32 {
    let t = trim(s);
    if t.len() == 0 {
        0
    } else {
        let u = if t[0] == '+' {
            t.drop_first()
        } else {
            t
        };
        match parse_i32_spec(u) {
            Some(v) => v,
            None => 0,
        }
    }
}

/// Parses DAM's key shift field (see [`shift_value`]).
pub fn parse_shift(s: &str) -> (r: i32)
    ensures
        r == shift_value(s@),
{
    let v = chars_of(s);
    let t = trim_chars(v.as_slice());
    if t.len() == 0 {
        return 0;
    }
    let u = if t[0] == '+' {
        let u = subvec(t.as_slice(), 1, t.len());
        assert(u@ =~= t@.drop_first());
        u
    } else {
        t
    };
    match parse_i32(u.as_slice()) {
        Some(x) => x,
        None => 0,
    }
}

/// The first item of the first group that has one.
pub open spec fn first_detail_item(groups: Seq<GetMusicDetailInfoListGroup>) -> Option<GetMusicDetailInfoItem>
    decreases groups.len(),
{
    if groups.len() == 0 {
        None
    } else if groups[0].items@.len() > 0 {
        Some(groups[0].items@[0])
    } else {
        first_detail_item(groups.drop_first())
    }
}

/// The vocal types a `guideVocal` code denotes.
pub open spec fn vocal_types_of(code: Seq<char>) -> Seq<DamVocalType> {
    if code == "1"@ {
        seq![DamVocalType::GuideMale]
    } else if code == "2"@ {
        seq![DamVocalType::GuideFemale]
    } else {
        seq![DamVocalType::Normal]
    }
}

/// The song that a music detail payload describes: identity from `data`, and
/// duration and DAM extras from the first listed item (none when no item).
pub open spec fn song_matches_detail(song: Song, p: GetMusicDetailInfoPayload) -> bool {
    &&& song.provider == ProviderId::Dam
    &&& song.id@ == p.data.request_no@
    &&& song.title@ == p.data.title@
    &&& song.artist@ == p.data.artist@
    &&& song.extra matches SongExtra::Dam(extra) && match first_detail_item(p.list@) {
        Some(item) => {
            &&& song.duration == match parse_u64_spec(item.playtime@) {
                Ok(v) => Some(v),
                Err(_) => None,
            }
            &&& extra.vocal_types@ == vocal_types_of(item.guide_vocal@)
            &&& extra.has_scoring == (item.score_flag@ == "1"@)
            &&& extra.score_level == item.score_level
            &&& extra.technical_level == item.technical_level
            &&& extra.shift == shift_value(item.shift@)
        },
        None => {
            &&& song.duration is None
            &&& extra.vocal_types@.len() == 0
            &&& !extra.has_scoring
            &&& extra.score_level == 0
            &&& extra.technical_level == 0
            &&& extra.shift == 0
        },
    }
}

/// The song of a detail payload whose first item has the `guideVocal` code
/// `"1"` has exactly a male guide vocal, `"2"` exactly a female one, and any
/// other code exactly the plain (no guide) vocal; without items it lists no
/// vocal type.
pub proof fn law_detail_vocal_types(song: Song, p: GetMusicDetailInfoPayload)
    requires
        song_matches_detail(song, p),
    ensures
        first_detail_item(p.list@) matches Some(item) && item.guide_vocal@ == "1"@ ==> (song.extra matches SongExtra::Dam(
            x,
        ) && x.vocal_types@ == seq![DamVocalType::GuideMale]),
        first_detail_item(p.list@) matches Some(item) && item.guide_vocal@ == "2"@ ==> (song.extra matches SongExtra::Dam(
            x,
        ) && x.vocal_types@ == seq![DamVocalType::GuideFemale]),
        first_detail_item(p.list@) matches Some(item) && item.guide_vocal@ != "1"@ && item.guide_vocal@ != "2"@ ==> (
        song.extra matches SongExtra::Dam(x) && x.vocal_types@ == seq![DamVocalType::Normal]),
        first_detail_item(p.list@) is None ==> (song.extra matches SongExtra::Dam(x) && x.vocal_types@.len() == 0),
{
    reveal_strlit("1");
    reveal_strlit("2");
    assert("1"@[0] != "2"@[0]);
}

fn first_item_of(groups: &Vec<GetMusicDetailInfoListGroup>) -> (r: Option<&GetMusicDetailInfoItem>)
    ensures
        match r {
            Some(x) => first_detail_item(groups@) == Some(*x),
            None => first_detail_item(groups@) is None,
        },
{
    let mut i: usize = 0;
    assert(groups@.skip(0) =~= groups@);
    while i < groups.len()
        invariant
            i <= groups@.len(),
            first_detail_item(groups@) == first_detail_item(groups@.skip(i as int)),
        decreases groups.len() - i,
    {
        assert(groups@.skip(i as int)[0] == groups@[i as int]);
        if groups[i].items.len() > 0 {
            return Some(&groups[i].items[0]);
        }
        assert(groups@.skip(i as int).drop_first() =~= groups@.skip(i + 1));
        i = i + 1;
    }
    assert(groups@.skip(i as int).len() == 0);
    None
}

fn literal_is(s: &str, lit: &str) -> (r: bool)
    ensures
        r == (s@ == lit@),
{
    let a = chars_of(s);
    let b = chars_of(lit);
    chars_eq(a.as_slice(), b.as_slice())
}

/// The song a music detail payload describes (see [`song_matches_detail`]).
pub fn song_from_detail(p: GetMusicDetailInfoPayload) -> (r: Song)
    ensures
        song_matches_detail(r, p),
{
    let (duration, extra) = match first_item_of(&p.list) {
        Some(item) => {
            let pt = chars_of(item.playtime.as_str());
            let duration = match parse_u64(pt.as_slice()) {
                Ok(v) => Some(v),
                Err(_) => None,
            };
            let mut vocal_types: Vec<DamVocalType> = Vec::new();
            if literal_is(item.guide_vocal.as_str(), "1") {
                vocal_types.push(DamVocalType::GuideMale);
            } else if literal_is(item.guide_vocal.as_str(), "2") {
                vocal_types.push(DamVocalType::GuideFemale);
            } else {
                vocal_types.push(DamVocalType::Normal);
            }
            assert(vocal_types@ =~= vocal_types_of(item.guide_vocal@));
            let extra = DamSongExtra {
                vocal_types,
                has_scoring: literal_is(item.score_flag.as_str(), "1"),
                score_level: item.score_level,
                technical_level: item.technical_level,
                shift: parse_shift(item.shift.as_str()),
            };
            (duration, extra)
        },
        None => (
            None,
            DamSongExtra {
                vocal_types: Vec::new(),
                has_scoring: false,
                score_level: 0,
                technical_level: 0,
                shift: 0,
            },
        ),
    };
    Song {
        provider: ProviderId::Dam,
        id: p.data.request_no,
        title: p.data.title,
        artist: p.data.artist,
        duration,
        extra: SongExtra::Dam(extra),
    }
}

/// A song search hit.
pub fn song_result_from(item: SearchMusicListItem) -> (r: SongResult)
    ensures
        r.provider == ProviderId::Dam,
        r.id@ == item.request_no@,
        r.title@ == item.title@,
        r.artist@ == item.artist@,
{
    SongResult { provider: ProviderId::Dam, id: item.request_no, title: item.title, artist: item.artist }
}

/// An artist search hit; the id is the decimal artist code.
pub fn artist_from(item: SearchArtistListItem) -> (r: Artist)
    ensures
        r.provider == ProviderId::Dam,
        r.id@ == signed_decimal(item.artist_code as int),
        r.name@ == item.artist@,
{
    Artist { provider: ProviderId::Dam, id: signed_decimal_string(item.artist_code), name: item.artist }
}

/// A page of song results; more pages follow when `hasNext` is `"1"`.
pub fn song_results(p: PaginatedPayload<SearchMusicListItem>) -> (r: SearchResults<SongResult>)
    ensures
        r.total_count == p.data.total_count,
        r.has_more == (p.data.has_next@ == "1"@),
        r.items@.len() == p.list@.len(),
        forall|i: int|
            0 <= i < r.items@.len() ==> {
                let x = #[trigger] r.items@[i];
                &&& x.provider == ProviderId::Dam
                &&& x.id@ == p.list@[i].request_no@
                &&& x.title@ == p.list@[i].title@
                &&& x.artist@ == p.list@[i].artist@
            },
{
    let has_more = literal_is(p.data.has_next.as_str(), "1");
    let total_count = p.data.total_count;
    let ghost list = p.list@;
    let mut items: Vec<SongResult> = Vec::new();
    let mut src = p.list;
    let mut rev: Vec<SearchMusicListItem> = Vec::new();
    while src.len() > 0
        invariant
            src@.len() + rev@.len() == list.len(),
            forall|j: int| 0 <= j < src@.len() ==> src@[j] == list[j],
            forall|j: int| 0 <= j < rev@.len() ==> rev@[j] == list[list.len() - 1 - j],
        decreases src@.len(),
    {
        let x = src.pop().unwrap();
        rev.push(x);
    }
    while rev.len() > 0
        invariant
            items@.len() + rev@.len() == list.len(),
            forall|j: int| 0 <= j < rev@.len() ==> rev@[j] == list[list.len() - 1 - j],
            forall|j: int|
                0 <= j < items@.len() ==> {
                    let x = #[trigger] items@[j];
                    &&& x.provider == ProviderId::Dam
                    &&& x.id@ == list[j].request_no@
                    &&& x.title@ == list[j].title@
                    &&& x.artist@ == list[j].artist@
                },
        decreases rev@.len(),
    {
        let x = rev.pop().unwrap();
        items.push(song_result_from(x));
    }
    SearchResults { items, total_count, has_more }
}

/// A page of artist results; more pages follow when `hasNext` is `"1"`.
pub fn artist_results(p: PaginatedPayload<SearchArtistListItem>) -> (r: SearchResults<Artist>)
    ensures
        r.total_count == p.data.total_count,
        r.has_more == (p.data.has_next@ == "1"@),
        r.items@.len() == p.list@.len(),
        forall|i: int|
            0 <= i < r.items@.len() ==> {
                let x = #[trigger] r.items@[i];
                &&& x.provider == ProviderId::Dam
                &&& x.id@ == signed_decimal(p.list@[i].artist_code as int)
                &&& x.name@ == p.list@[i].artist@
            },
{
    let has_more = literal_is(p.data.has_next.as_str(), "1");
    let total_count = p.data.total_count;
    let ghost list = p.list@;
    let mut items: Vec<Artist> = Vec::new();
    let mut src = p.list;
    let mut rev: Vec<SearchArtistListItem> = Vec::new();
    while src.len() > 0
        invariant
            src@.len() + rev@.len() == list.len(),
            forall|j: int| 0 <= j < src@.len() ==> src@[j] == list[j],
            forall|j: int| 0 <= j < rev@.len() ==> rev@[j] == list[list.len() - 1 - j],
        decreases src@.len(),
    {
        let x = src.pop().unwrap();
        rev.push(x);
    }
    while rev.len() > 0
        invariant
            items@.len() + rev@.len() == list.len(),
            forall|j: int| 0 <= j < rev@.len() ==> rev@[j] == list[list.len() - 1 - j],
            forall|j: int|
                0 <= j < items@.len() ==> {
                    let x = #[trigger] items@[j];
                    &&& x.provider == ProviderId::Dam
                    &&& x.id@ == signed_decimal(list[j].artist_code as int)
                    &&& x.name@ == list[j].artist@
                },
        decreases rev@.len(),
    {
        let x = rev.pop().unwrap();
        items.push(artist_from(x));
    }
    SearchResults { items, total_count, has_more }
}

/// The streaming entry to play: the first that is not a duet, else the
/// first of all.
pub open spec fn pick_stream(list: Seq<StreamingUrlsListItem>) -> Option<StreamingUrlsListItem> {
    if exists|i: int| 0 <= i < list.len() && list[i].duet@ != "1"@ {
        let i = choose|i: int|
            0 <= i < list.len() && list[i].duet@ != "1"@ && forall|j: int|
                0 <= j < i ==> list[j].duet@ == "1"@;
        Some(list[i])
    } else if list.len() > 0 {
        Some(list[0])
    } else {
        None
    }
}

/// The HLS stream a streaming-URL payload offers (see [`pick_stream`]).
pub fn media_stream_from(p: StreamingUrlsPayload) -> (r: Result<MediaStream, ProviderError>)
    ensures
        match pick_stream(p.list@) {
            Some(item) => r matches Ok(MediaStream::Hls { url_high, url_low }) && url_high@
                == item.high_bitrate_url@ && (url_low matches Some(l) && l@ == item.low_bitrate_url@),
            None => r matches Err(ProviderError::NotFound(m)) && m@ == "no streaming urls returned"@,
        },
{
    let mut i: usize = 0;
    while i < p.list.len()
        invariant
            i <= p.list@.len(),
            forall|j: int| 0 <= j < i ==> p.list@[j].duet@ == "1"@,
        decreases p.list.len() - i,
    {
        if !literal_is(p.list[i].duet.as_str(), "1") {
            proof {
                let k = choose|k: int|
                    0 <= k < p.list@.len() && p.list@[k].duet@ != "1"@ && forall|j: int|
                        0 <= j < k ==> p.list@[j].duet@ == "1"@;
                if k < i {
                    assert(p.list@[k].duet@ == "1"@);
                }
                if k > i {
                    assert(p.list@[i as int].duet@ == "1"@);
                }
                assert(k == i);
            }
            let item = &p.list[i];
            return Ok(
                MediaStream::Hls {
                    url_high: item.high_bitrate_url.clone(),
                    url_low: Some(item.low_bitrate_url.clone()),
                },
            );
        }
        i = i + 1;
    }
    if p.list.len() > 0 {
        let item = &p.list[0];
        Ok(
            MediaStream::Hls {
                url_high: item.high_bitrate_url.clone(),
                url_low: Some(item.low_bitrate_url.clone()),
            },
        )
    } else {
        Err(ProviderError::NotFound(String::from_str("no streaming urls returned")))
    }
}

} // verus!

verus! {

// ---------------------------------------------------------------------------
// Request and response helpers
// ---------------------------------------------------------------------------

/// The 1-based page number DAM expects for a 0-based page.
pub fn page_no_string(page: u32) -> (r: String)
    requires
        page < u32::MAX,
    ensures
        r@ == decimal((page + 1) as nat),
{
    decimal_string((page + 1) as u64)
}

/// Whether a `DAM_DEBUG` environment value turns on request logging.
pub fn is_debug_flag(value: Option<&str>) -> (r: bool)
    ensures
        r == match value {
            Some(v) => v@ == "1"@ || v@ == "true"@ || v@ == "yes"@,
            None => false,
        },
{
    match value {
        Some(v) => literal_is(v, "1") || literal_is(v, "true") || literal_is(v, "yes"),
        None => false,
    }
}

/// The number of UTF-8 bytes of `s`.
pub open spec fn utf8_len(s: Seq<char>) -> nat {
    encode_utf8(s).len()
}

/// How many leading characters of `s` fit in `budget` UTF-8 bytes.
pub open spec fn chars_within(s: Seq<char>, budget: int) -> int
    decreases s.len(),
{
    if s.len() == 0 || utf8_len(s.take(1)) > budget {
        0
    } else {
        1 + chars_within(s.drop_first(), budget - utf8_len(s.take(1)))
    }
}

/// `s` cut to at most `max` UTF-8 bytes on a character boundary, with a note
/// of how many bytes were dropped; unchanged when it already fits.
pub open spec fn truncate_spec(s: Seq<char>, max: nat) -> Seq<char> {
    if utf8_len(s) <= max {
        s
    } else {
        let k = chars_within(s, max as int);
        s.take(k) + "… [truncated "@ + decimal((utf8_len(s) - utf8_len(s.take(k))) as nat) + " bytes]"@
    }
}

fn char_width(c: char) -> (w: u128)
    ensures
        w == utf8_len(seq![c]),
        1 <= w <= 4,
{
    proof {
        vstd::utf8::char_is_scalar(c);
        assert(encode_utf8(seq![c]) =~= vstd::utf8::encode_scalar(c as u32) + encode_utf8(
            seq![c].drop_first(),
        ));
        assert(seq![c].drop_first() =~= Seq::<char>::empty());
        assert(encode_utf8(Seq::<char>::empty()) =~= Seq::<u8>::empty());
    }
    let u = c as u32;
    if u <= 0x7f {
        1
    } else if u <= 0x7ff {
        2
    } else if u <= 0xffff {
        3
    } else {
        4
    }
}

proof fn lemma_utf8_len_push(s: Seq<char>, c: char)
    ensures
        utf8_len(s.push(c)) == utf8_len(s) + utf8_len(seq![c]),
    decreases s.len(),
{
    if s.len() == 0 {
        assert(s.push(c) =~= seq![c]);
        assert(encode_utf8(s) =~= Seq::<u8>::empty());
    } else {
        lemma_utf8_len_push(s.drop_first(), c);
        assert(s.push(c).drop_first() =~= s.drop_first().push(c));
    }
}

proof fn lemma_chars_within_step(s: Seq<char>, budget: int, k: int)
    requires
        0 <= k < s.len(),
        forall|m: int| 1 <= m <= k ==> utf8_len(#[trigger] s.take(m)) <= budget,
        utf8_len(s.take(k + 1)) > budget,
    ensures
        chars_within(s, budget) == k,
    decreases s.len(),
{
    assert(s.take(1) =~= seq![s[0]]);
    if k > 0 {
        let t = s.drop_first();
        let w = utf8_len(s.take(1));
        assert forall|m: int| 1 <= m <= k - 1 implies utf8_len(#[trigger] t.take(m)) <= budget - w by {
            lemma_utf8_len_prefix(s, m + 1);
            assert(s.take(m + 1).drop_first() =~= t.take(m));
            assert(utf8_len(s.take(m + 1)) <= budget);
        }
        lemma_utf8_len_prefix(s, 1);
        assert(utf8_len(s.take(1)) <= budget);
        lemma_utf8_len_prefix(s, k + 1);
        assert(s.take(k + 1).drop_first() =~= t.take(k));
        assert(s.take(1).take(1) =~= s.take(1));
        lemma_chars_within_step(t, budget - w, k - 1);
    } else {
        assert(s.take(1) =~= s.take(k + 1));
    }
}

proof fn lemma_utf8_len_prefix(s: Seq<char>, n: int)
    requires
        1 <= n <= s.len(),
    ensures
        utf8_len(s.take(n)) == utf8_len(s.take(1)) + utf8_len(s.take(n).drop_first()),
{
    assert(s.take(n)[0] == s[0]);
    assert(s.take(1) =~= seq![s[0]]);
    assert(encode_utf8(s.take(1)) =~= vstd::utf8::encode_scalar(s[0] as u32) + encode_utf8(
        s.take(1).drop_first(),
    ));
    assert(s.take(1).drop_first() =~= Seq::<char>::empty());
}

proof fn lemma_chars_within_all(s: Seq<char>, budget: int)
    requires
        utf8_len(s) <= budget,
    ensures
        chars_within(s, budget) == s.len(),
    decreases s.len(),
{
    if s.len() > 0 {
        lemma_utf8_len_prefix(s, s.len() as int);
        assert(s.take(s.len() as int) =~= s);
        lemma_utf8_len_nonneg_prefix_le(s);
        lemma_chars_within_all(s.drop_first(), budget - utf8_len(s.take(1)));
    }
}

proof fn lemma_utf8_len_nonneg_prefix_le(s: Seq<char>)
    requires
        s.len() > 0,
    ensures
        utf8_len(s.take(1)) <= utf8_len(s),
{
    lemma_utf8_len_prefix(s, s.len() as int);
    assert(s.take(s.len() as int) =~= s);
}

/// Cuts `s` to at most `max` UTF-8 bytes (see [`truncate_spec`]).
pub fn truncate(s: &str, max: usize) -> (r: String)
    ensures
        r@ == truncate_spec(s@, max as nat),
{
    let v = chars_of(s);
    let n = v.len();
    let mut total: u128 = 0;
    let mut k: usize = 0;
    let mut cut: Option<(usize, u128)> = None;
    while k < n
        invariant
            n == v@.len(),
            k <= n,
            total == utf8_len(v@.take(k as int)),
            total <= 4 * k,
            cut is None ==> total <= max,
            cut is None ==> forall|m: int| 1 <= m <= k ==> utf8_len(#[trigger] v@.take(m)) <= max,
            cut matches Some((c, b)) ==> b <= total && total > max,
            cut matches Some((c, b)) ==> c < k && b == utf8_len(v@.take(c as int)) && chars_within(
                v@,
                max as int,
            ) == c,
        decreases n - k,
    {
        let w = char_width(v[k]);
        proof {
            assert(v@.take(k + 1) =~= v@.take(k as int).push(v@[k as int]));
            lemma_utf8_len_push(v@.take(k as int), v@[k as int]);
        }
        if cut.is_none() && total + w > max as u128 {
            proof {
                lemma_chars_within_step(v@, max as int, k as int);
            }
            cut = Some((k, total));
        }
        total = total + w;
        k = k + 1;
    }
    assert(v@.take(n as int) =~= v@);
    match cut {
        None => {
            proof {
                lemma_chars_within_all(v@, max as int);
            }
            String::from_str(s)
        },
        Some((c, b)) => {
            let head = subvec(v.as_slice(), 0, c);
            assert(head@ =~= v@.take(c as int));
            let a = string_of(head.as_slice());
            let a2 = a.concat("… [truncated ");
            let a3 = a2.concat(decimal_string_u128(total - b).as_str());
            a3.concat(" bytes]")
        },
    }
}

} // verus!

verus! {

/// The error for a non-success HTTP status: the status, the URL and at most
/// 1024 bytes of the body.
pub fn http_failure(status: &str, url: &str, body: &str) -> (r: ProviderError)
    ensures
        r matches ProviderError::Upstream(m) && m@ == "HTTP "@ + status@ + " from "@ + url@ + ": "@
            + truncate_spec(body@, 1024),
{
    let a = concat_str("HTTP ", status);
    let b = a.concat(" from ");
    let c = b.concat(url);
    let d = c.concat(": ");
    ProviderError::Upstream(d.concat(truncate(body, 1024).as_str()))
}

/// The body of a response whose status is `status` (shown as
/// `status_text`, such as `404 Not Found`): kept for decoding when the status
/// is a success (2xx), otherwise turned into the failure it stands for.
pub fn checked_body(status: u16, status_text: &str, url: &str, body: String) -> (r: Result<String, ProviderError>)
    ensures
        200 <= status <= 299 ==> r == Ok::<String, ProviderError>(body),
        !(200 <= status <= 299) ==> (r matches Err(ProviderError::Upstream(m)) && m@ == "HTTP "@ + status_text@
            + " from "@ + url@ + ": "@ + truncate_spec(body@, 1024)),
{
    if 200 <= status && status <= 299 {
        Ok(body)
    } else {
        Err(http_failure(status_text, url, body.as_str()))
    }
}

/// The error for a response body that is not the expected JSON.
pub fn json_decode_failure(url: &str, err: &str) -> (r: ProviderError)
    ensures
        r matches ProviderError::Upstream(m) && m@ == "JSON decode error from "@ + url@ + ": "@ + err@,
{
    let a = concat_str("JSON decode error from ", url);
    let b = a.concat(": ");
    ProviderError::Upstream(b.concat(err))
}

/// The fields every Minsei request starts with.
pub open spec fn minsei_base() -> Seq<(&'static str, &'static str)> {
    seq![
        ("charset", "UTF-8"),
        ("compAuthKey", "2/Qb9R@8s*"),
        ("compId", "1"),
        ("deviceId", "22"),
        ("format", "json"),
        ("serviceId", "1"),
        ("contractId", "1"),
    ]
}

/// The fields every DKWebsys request starts with.
pub open spec fn dkwebsys_base() -> Seq<(&'static str, &'static str)> {
    seq![("modelTypeCode", "2"), ("minseiModelNum", "M1"), ("compId", "1"), ("authKey", "2/Qb9R@8s*")]
}

fn append_fields<'a>(out: &mut Vec<(&'a str, &'a str)>, body: &[(&'a str, &'a str)])
    ensures
        final(out)@ == old(out)@ + body@,
{
    let mut i: usize = 0;
    let ghost start = out@;
    while i < body.len()
        invariant
            i <= body@.len(),
            out@ == start + body@.take(i as int),
        decreases body.len() - i,
    {
        out.push(body[i]);
        i = i + 1;
        assert(out@ =~= start + body@.take(i as int));
    }
    assert(body@.take(i as int) =~= body@);
}

/// The form fields of a Minsei request: the common ones, then `body`.
pub fn minsei_fields<'a>(body: &[(&'a str, &'a str)]) -> (r: Vec<(&'a str, &'a str)>)
    ensures
        r@ == minsei_base() + body@,
{
    let mut out: Vec<(&'a str, &'a str)> = Vec::new();
    out.push(("charset", "UTF-8"));
    out.push(("compAuthKey", "2/Qb9R@8s*"));
    out.push(("compId", "1"));
    out.push(("deviceId", "22"));
    out.push(("format", "json"));
    out.push(("serviceId", "1"));
    out.push(("contractId", "1"));
    assert(out@ =~= minsei_base());
    append_fields(&mut out, body);
    out
}

/// The JSON fields of a DKWebsys request: the common ones, then `body`.
pub fn dkwebsys_fields<'a>(body: &[(&'a str, &'a str)]) -> (r: Vec<(&'a str, &'a str)>)
    ensures
        r@ == dkwebsys_base() + body@,
{
    let mut out: Vec<(&'a str, &'a str)> = Vec::new();
    out.push(("modelTypeCode", "2"));
    out.push(("minseiModelNum", "M1"));
    out.push(("compId", "1"));
    out.push(("authKey", "2/Qb9R@8s*"));
    assert(out@ =~= dkwebsys_base());
    append_fields(&mut out, body);
    out
}

/// The text logged for one field: its value, or `***` when its key is
/// among `redact`.
pub open spec fn shown_value(key: &str, value: &str, redact: Seq<&str>) -> Seq<char> {
    if exists|i: int| 0 <= i < redact.len() && redact[i]@ == key@ {
        "***"@
    } else {
        value@
    }
}

/// ` key=value` for each field, in order.
pub open spec fn fields_log(fields: Seq<(&str, &str)>, redact: Seq<&str>) -> Seq<char>
    decreases fields.len(),
{
    if fields.len() == 0 {
        seq![]
    } else {
        fields_log(fields.drop_last(), redact) + " "@ + fields.last().0@ + "="@ + shown_value(
            fields.last().0,
            fields.last().1,
            redact,
        )
    }
}

/// The debug log line of an outgoing request.
pub fn request_log_line(url: &str, fields: &[(&str, &str)], redact: &[&str]) -> (r: String)
    ensures
        r@ == "[dam] -> POST "@ + url@ + fields_log(fields@, redact@),
{
    let mut line = concat_str("[dam] -> POST ", url);
    let mut i: usize = 0;
    while i < fields.len()
        invariant
            i <= fields@.len(),
            line@ == "[dam] -> POST "@ + url@ + fields_log(fields@.take(i as int), redact@),
        decreases fields.len() - i,
    {
        let (k, v) = fields[i];
        let mut hidden = false;
        let mut j: usize = 0;
        while j < redact.len()
            invariant
                j <= redact@.len(),
                hidden == exists|t: int| 0 <= t < j && redact@[t]@ == k@,
            decreases redact.len() - j,
        {
            if literal_is(redact[j], k) {
                hidden = true;
            }
            j = j + 1;
        }
        let shown = if hidden {
            "***"
        } else {
            v
        };
        assert(fields@.take(i + 1).drop_last() =~= fields@.take(i as int));
        let a = line.concat(" ");
        let b = a.concat(k);
        let c = b.concat("=");
        line = c.concat(shown);
        i = i + 1;
    }
    assert(fields@.take(i as int) =~= fields@);
    line
}

} // verus!

verus! {

// ---------------------------------------------------------------------------
// Endpoints and request bodies
// ---------------------------------------------------------------------------

/// The access key Minsei requests carry in the `win10-access-key` header.
pub const WIN10_ACCESS_KEY: &'static str = "mbAmgk3GuCOKAgL8dCQR";

pub const URL_LOGIN: &'static str = "https://win10.clubdam.com/cwa/win/minsei/auth/LoginByDamtomoMemberId.api";

pub const URL_GET_STREAMING_URL: &'static str =
    "https://win10.clubdam.com/cwa/win/minsei/music/playLog/GetMusicStreamingURL.api";

pub const URL_GET_MUSIC_DETAIL: &'static str = "https://csgw.clubdam.com/dkwebsys/search-api/GetMusicDetailInfoApi";

pub const URL_SEARCH_MUSIC: &'static str = "https://csgw.clubdam.com/dkwebsys/search-api/SearchMusicByKeywordApi";

pub const URL_SEARCH_ARTIST: &'static str = "https://csgw.clubdam.com/dkwebsys/search-api/SearchArtistByKeywordApi";

pub const URL_MUSIC_BY_ARTIST: &'static str = "https://csgw.clubdam.com/dkwebsys/search-api/GetMusicListByArtistApi";

/// The text of request fields.
pub open spec fn field_texts(fields: Seq<(&str, &str)>) -> Seq<(Seq<char>, Seq<char>)> {
    fields.map_values(|f: (&str, &str)| (f.0@, f.1@))
}

/// The fields of a login request (the password is redacted when logged).
pub fn login_body<'a>(config: &'a DamConfig) -> (r: Vec<(&'a str, &'a str)>)
    ensures
        field_texts(r@) == seq![
            ("loginId"@, config.username@),
            ("password"@, config.password@),
            ("format"@, "json"@),
        ],
{
    let r = vec![("loginId", config.username.as_str()), ("password", config.password.as_str()), ("format", "json")];
    assert(field_texts(r@) =~= seq![
        ("loginId"@, config.username@),
        ("password"@, config.password@),
        ("format"@, "json"@),
    ]);
    r
}

/// The fields of a music detail request.
pub fn music_detail_body<'a>(song_id: &'a str) -> (r: Vec<(&'a str, &'a str)>)
    ensures
        field_texts(r@) == seq![("requestNo"@, song_id@)],
{
    let r = vec![("requestNo", song_id)];
    assert(field_texts(r@) =~= seq![("requestNo"@, song_id@)]);
    r
}

/// The fields of a streaming URL request (the token is redacted when logged).
pub fn streaming_url_body<'a>(song_id: &'a str, user_code: &'a str, auth_token: &'a str) -> (r: Vec<(&'a str, &'a str)>)
    ensures
        field_texts(r@) == seq![("requestNo"@, song_id@), ("userCode"@, user_code@), ("authToken"@, auth_token@)],
{
    let r = vec![("requestNo", song_id), ("userCode", user_code), ("authToken", auth_token)];
    assert(field_texts(r@) =~= seq![
        ("requestNo"@, song_id@),
        ("userCode"@, user_code@),
        ("authToken"@, auth_token@),
    ]);
    r
}

/// The fields of a keyword search (songs or artists) for a 1-based page:
/// sorted by relevance, thirty results a page.
pub fn keyword_search_body<'a>(query: &'a str, page_no: &'a str) -> (r: Vec<(&'a str, &'a str)>)
    ensures
        field_texts(r@) == seq![("keyword"@, query@), ("sort"@, "2"@), ("pageNo"@, page_no@), ("dispCount"@, "30"@)],
{
    let r = vec![("keyword", query), ("sort", "2"), ("pageNo", page_no), ("dispCount", "30")];
    assert(field_texts(r@) =~= seq![
        ("keyword"@, query@),
        ("sort"@, "2"@),
        ("pageNo"@, page_no@),
        ("dispCount"@, "30"@),
    ]);
    r
}

/// The fields of a listing of an artist's songs for a 1-based page.
pub fn artist_songs_body<'a>(artist_id: &'a str, page_no: &'a str) -> (r: Vec<(&'a str, &'a str)>)
    ensures
        field_texts(r@) == seq![
            ("artistCode"@, artist_id@),
            ("sort"@, "2"@),
            ("pageNo"@, page_no@),
            ("dispCount"@, "30"@),
        ],
{
    let r = vec![("artistCode", artist_id), ("sort", "2"), ("pageNo", page_no), ("dispCount", "30")];
    assert(field_texts(r@) =~= seq![
        ("artistCode"@, artist_id@),
        ("sort"@, "2"@),
        ("pageNo"@, page_no@),
        ("dispCount"@, "30"@),
    ]);
    r
}

} // verus!

verus! {

proof fn lemma_utf8_len_first(s: Seq<char>, k: int)
    requires
        0 <= k < s.len(),
    ensures
        utf8_len(s.take(k + 1)) == utf8_len(s.take(1)) + utf8_len(s.drop_first().take(k)),
{
    assert(s.take(k + 1).drop_first() =~= s.drop_first().take(k));
    assert(s.take(1).drop_first() =~= Seq::<char>::empty());
    assert(s.take(k + 1)[0] == s[0] && s.take(1)[0] == s[0]);
    assert(encode_utf8(Seq::<char>::empty()) =~= Seq::<u8>::empty());
}

proof fn lemma_chars_within(s: Seq<char>, budget: int)
    requires
        budget >= 0,
    ensures
        0 <= chars_within(s, budget) <= s.len(),
        utf8_len(s.take(chars_within(s, budget))) <= budget,
        chars_within(s, budget) < s.len() ==> utf8_len(s.take(chars_within(s, budget) + 1)) > budget,
    decreases s.len(),
{
    let k = chars_within(s, budget);
    assert(encode_utf8(Seq::<char>::empty()) =~= Seq::<u8>::empty());
    if s.len() == 0 || utf8_len(s.take(1)) > budget {
        assert(s.take(0) =~= Seq::<char>::empty());
    } else {
        let rest = s.drop_first();
        let b = budget - utf8_len(s.take(1));
        lemma_chars_within(rest, b);
        let j = chars_within(rest, b);
        assert(k == j + 1);
        lemma_utf8_len_first(s, j);
        if j < rest.len() {
            lemma_utf8_len_first(s, j + 1);
        }
    }
}

/// What `truncate` keeps of a text that is too long is the longest prefix
/// that fits in `max` bytes: it fits, and one more character would not.
pub proof fn law_truncate_keeps_longest_fitting_prefix(s: Seq<char>, max: nat)
    requires
        utf8_len(s) > max,
    ensures
        utf8_len(s.take(chars_within(s, max as int))) <= max,
        chars_within(s, max as int) < s.len(),
        utf8_len(s.take(chars_within(s, max as int) + 1)) > max,
        truncate_spec(s, max) == s.take(chars_within(s, max as int)) + "… [truncated "@ + decimal(
            (utf8_len(s) - utf8_len(s.take(chars_within(s, max as int)))) as nat,
        ) + " bytes]"@,
{
    lemma_chars_within(s, max as int);
    if chars_within(s, max as int) == s.len() {
        assert(s.take(s.len() as int) =~= s);
    }
}

} // verus!
