use std::sync::Arc;

use kf2_server::provider::cache::ProviderCache;
use kf2_server::provider::dam::{
    check_dkwebsys, check_minsei, is_debug_flag, media_stream_from, page_no_string, parse_shift, song_from_detail,
    truncate, DamConfig, DamProvider, DkwebsysResult, GetMusicDetailInfoData, GetMusicDetailInfoItem,
    GetMusicDetailInfoListGroup, GetMusicDetailInfoPayload, MinseiResponseBase, StreamingUrlsListItem,
    StreamingUrlsPayload,
};
use kf2_server::provider::error::{ProviderError, StatusCode};
use kf2_server::provider::joysound::JoysoundProvider;
use kf2_server::provider::types::{AssetId, AssetIdParseError, Capability, DamVocalType, MediaStream, ProviderConfig, ProviderId, SongExtra};
use kf2_server::provider::youtube::YouTubeProvider;
use kf2_server::provider::{Provider, ProviderRegistry};
use kf2_server::tools::YtDlp;

fn sample_config() -> ProviderConfig {
    ProviderConfig::BasicAuth { username: "u".into(), password: "p".into() }
}

#[test]
fn provider_names_round_trip() {
    for id in [ProviderId::Dam, ProviderId::Joysound, ProviderId::YouTube] {
        assert_eq!(ProviderId::from_name(id.as_str()), Some(id));
    }
    assert_eq!(ProviderId::YouTube.as_str(), "you_tube");
    assert_eq!(ProviderId::from_name("youtube"), None);
    assert_eq!(ProviderId::from_name("DAM"), None);
    assert_eq!("joysound".parse::<ProviderId>(), Ok(ProviderId::Joysound));
    assert_eq!("spotify".parse::<ProviderId>(), Err("Matching variant not found".to_string()));
}

#[test]
fn urn_renders_and_parses_back() {
    let id = AssetId::new(ProviderId::Dam, "contentsId:5778352".to_string());
    assert_eq!(id.to_string(), "urn:dam:contentsId:5778352");
    let back = AssetId::parse("urn:dam:contentsId:5778352").unwrap();
    assert_eq!(back, id);
    assert_eq!(back.provider(), ProviderId::Dam);
    assert_eq!(back.body(), "contentsId:5778352");
    let via_from_str: AssetId = "urn:joysound:x".parse().unwrap();
    assert_eq!(via_from_str.provider(), ProviderId::Joysound);
}

#[test]
fn urn_parse_errors() {
    let msg = |s: &str| AssetId::parse(s).unwrap_err().to_string();
    assert!(matches!(AssetId::parse("dam:1"), Err(AssetIdParseError::BadShape(_))));
    assert_eq!(msg("dam:1"), "expected URN of form `urn:<provider>:<body>`, got `dam:1`");
    assert_eq!(msg("urn:dam"), "expected URN of form `urn:<provider>:<body>`, got `urn:dam`");
    assert_eq!(msg("urn:dam:"), "empty body in URN `urn:dam:`");
    assert_eq!(msg("urn:spotify:1"), "unknown provider `spotify`");
}

#[test]
fn registry_holds_one_provider_per_id() {
    let mut reg = ProviderRegistry::new();
    assert!(reg.get(ProviderId::Dam).is_none());
    assert!(reg.all().is_empty());
    reg.register(Arc::new(Provider::Dam(DamProvider)));
    reg.register(Arc::new(Provider::Joysound(JoysoundProvider)));
    reg.register(Arc::new(Provider::Dam(DamProvider)));
    assert_eq!(reg.get(ProviderId::Dam).unwrap().id(), ProviderId::Dam);
    assert!(reg.get(ProviderId::YouTube).is_none());
    let ids: Vec<ProviderId> = reg.all().iter().map(|p| p.id()).collect();
    assert_eq!(ids, vec![ProviderId::Dam, ProviderId::Joysound]);
}

#[test]
fn provider_metadata_and_configs() {
    let yt = Provider::YouTube(YouTubeProvider::new(Arc::new(YtDlp { path: "yt-dlp".into(), version: "1".into() })));
    let dam = Provider::Dam(DamProvider);
    let m = dam.metadata();
    assert_eq!((m.id, m.name), (ProviderId::Dam, "DAM"));
    assert_eq!(m.capabilities, &[Capability::Search, Capability::Scoring]);
    assert!(m.requires_configuration);
    assert!(!yt.metadata().requires_configuration);
    match dam.build_config_from_basic_auth("alice".into(), "pw".into()) {
        ProviderConfig::BasicAuth { username, password } => assert_eq!((username.as_str(), password.as_str()), ("alice", "pw")),
        other => panic!("unexpected {other:?}"),
    }
    assert!(matches!(yt.build_config_from_basic_auth("a".into(), "b".into()), ProviderConfig::Empty));
    assert_eq!(dam.username_from_config(&sample_config()).as_deref(), Some("u"));
    assert_eq!(yt.username_from_config(&sample_config()), None);
    assert_eq!(dam.username_from_config(&ProviderConfig::Empty), None);
}

#[test]
fn get_returns_none_when_empty() {
    let cache: ProviderCache<u32> = ProviderCache::new();
    assert!(cache.get("nope", ProviderId::Dam).is_none());
}

#[test]
fn get_or_insert_keeps_the_first_writer() {
    let mut cache: ProviderCache<String> = ProviderCache::new();
    let first = Arc::new("first".to_string());
    let second = Arc::new("second".to_string());
    let a = cache.get_or_insert("s1", ProviderId::Dam, first.clone());
    let b = cache.get_or_insert("s1", ProviderId::Dam, second.clone());
    assert!(Arc::ptr_eq(&a, &b));
    assert!(Arc::ptr_eq(&a, &first));
}

#[test]
fn evict_removes_entry() {
    let mut cache: ProviderCache<String> = ProviderCache::new();
    cache.insert("s1", ProviderId::Dam, Arc::new("configured".to_string()));
    assert!(cache.get("s1", ProviderId::Dam).is_some());
    cache.evict("s1", ProviderId::Dam);
    assert!(cache.get("s1", ProviderId::Dam).is_none());
}

#[test]
fn cache_keys_are_session_and_provider() {
    let mut cache: ProviderCache<u32> = ProviderCache::default();
    let x = cache.insert("s1", ProviderId::Dam, Arc::new(1));
    assert_eq!(*x, 1);
    cache.insert("s1", ProviderId::Joysound, Arc::new(2));
    cache.insert("s2", ProviderId::Dam, Arc::new(3));
    cache.insert("s1", ProviderId::Dam, Arc::new(4));
    assert_eq!(*cache.get("s1", ProviderId::Dam).unwrap(), 4);
    assert_eq!(*cache.get("s1", ProviderId::Joysound).unwrap(), 2);
    assert_eq!(*cache.get("s2", ProviderId::Dam).unwrap(), 3);
    cache.evict("s1", ProviderId::Dam);
    cache.evict("nobody", ProviderId::Dam);
    assert!(cache.get("s1", ProviderId::Dam).is_none());
    assert_eq!(*cache.get("s2", ProviderId::Dam).unwrap(), 3);
    let shared = cache.get("s2", ProviderId::Dam).unwrap();
    assert!(Arc::ptr_eq(&shared, &cache.get("s2", ProviderId::Dam).unwrap()));
}

#[test]
fn provider_errors_map_to_statuses() {
    let cases = [
        (ProviderError::NotSupported, StatusCode::Unimplemented, "not supported by this provider"),
        (ProviderError::AuthFailed("bad".into()), StatusCode::Unauthenticated, "authentication failed: bad"),
        (ProviderError::NotFound("x".into()), StatusCode::NotFound, "not found: x"),
        (ProviderError::RateLimited { retry_after_secs: Some(30) }, StatusCode::ResourceExhausted, "rate limited, retry after Some(30)s"),
        (ProviderError::RateLimited { retry_after_secs: None }, StatusCode::ResourceExhausted, "rate limited, retry after Nones"),
        (ProviderError::Upstream("u".into()), StatusCode::Internal, "upstream error: u"),
        (ProviderError::Other("o".into()), StatusCode::Internal, "o"),
    ];
    for (e, code, text) in cases {
        assert_eq!(e.status_code(), code);
        assert_eq!(e.to_string(), text);
        assert!(!e.is_retryable());
    }
    assert!(ProviderError::Http("t".into()).is_retryable());
}

#[test]
fn dam_credentials() {
    assert!(matches!(DamProvider::credentials(None), Err(ProviderError::AuthFailed(m)) if m == "DAM requires username/password"));
    let c = DamProvider::credentials(Some(&sample_config())).unwrap();
    assert_eq!((c.username.as_str(), c.password.as_str()), ("u", "p"));
    assert_eq!(DamConfig::from_config(&ProviderConfig::Empty).unwrap_err(), "invalid type: null, expected struct DamConfig");
}

#[test]
fn dam_envelopes() {
    let base = |code: &str| MinseiResponseBase { message: "msg".into(), status: "NG".into(), status_code: code.into() };
    assert!(check_minsei(&base("0000")).is_ok());
    assert!(check_minsei(&base("1005")).is_ok());
    assert!(matches!(check_minsei(&base("9999")), Err(ProviderError::Upstream(m)) if m == "NG: msg"));
    let res = |code: &str, d: Option<&str>| DkwebsysResult { status_code: code.into(), message: "m".into(), detail_message: d.map(Into::into) };
    assert!(check_dkwebsys(&res("0000", None)).is_ok());
    assert!(matches!(check_dkwebsys(&res("1005", None)), Err(ProviderError::Upstream(m)) if m == "1005 m: "));
    assert!(matches!(check_dkwebsys(&res("E1", Some("why"))), Err(ProviderError::Upstream(m)) if m == "E1 m: why"));
}

#[test]
fn dam_scalars() {
    assert_eq!(parse_shift(""), 0);
    assert_eq!(parse_shift(" +3 "), 3);
    assert_eq!(parse_shift("-2"), -2);
    assert_eq!(parse_shift("x"), 0);
    assert_eq!(page_no_string(0), "1");
    assert_eq!(page_no_string(9), "10");
    assert!(is_debug_flag(Some("1")) && is_debug_flag(Some("true")) && is_debug_flag(Some("yes")));
    assert!(!is_debug_flag(Some("0")) && !is_debug_flag(None));
    assert_eq!(truncate("short", 10), "short");
    assert_eq!(truncate("abcdef", 4), "abcd… [truncated 2 bytes]");
    assert_eq!(truncate("ééé", 3), "é… [truncated 4 bytes]");
}

#[test]
fn dam_song_and_stream() {
    let item = GetMusicDetailInfoItem {
        playtime: "245".into(),
        guide_vocal: "2".into(),
        score_flag: "1".into(),
        score_level: 3,
        technical_level: 4,
        shift: "+1".into(),
    };
    let p = GetMusicDetailInfoPayload {
        data: GetMusicDetailInfoData { request_no: "1234-56".into(), title: "T".into(), artist: "A".into() },
        list: vec![GetMusicDetailInfoListGroup { items: vec![] }, GetMusicDetailInfoListGroup { items: vec![item] }],
    };
    let song = song_from_detail(p);
    assert_eq!(song.id, "1234-56");
    assert_eq!(song.duration, Some(245));
    match song.extra {
        SongExtra::Dam(e) => {
            assert_eq!(e.vocal_types, vec![DamVocalType::GuideFemale]);
            assert!(e.has_scoring);
            assert_eq!((e.score_level, e.technical_level, e.shift), (3, 4, 1));
        }
        other => panic!("unexpected {other:?}"),
    }
    let url = |duet: &str, h: &str| StreamingUrlsListItem { duet: duet.into(), high_bitrate_url: h.into(), low_bitrate_url: format!("{h}-low") };
    let s = media_stream_from(StreamingUrlsPayload { list: vec![url("1", "duet"), url("0", "solo")] }).unwrap();
    assert!(matches!(s, MediaStream::Hls { url_high, url_low: Some(l) } if url_high == "solo" && l == "solo-low"));
    let s = media_stream_from(StreamingUrlsPayload { list: vec![url("1", "duet")] }).unwrap();
    assert!(matches!(s, MediaStream::Hls { url_high, .. } if url_high == "duet"));
    assert!(matches!(media_stream_from(StreamingUrlsPayload { list: vec![] }), Err(ProviderError::NotFound(m)) if m == "no streaming urls returned"));
}

#[test]
fn youtube_is_not_wired_up_yet() {
    let yt = YouTubeProvider::new(Arc::new(YtDlp { path: "yt-dlp".into(), version: "2026.03.17".into() }));
    assert!(matches!(yt.get_song("x"), Err(ProviderError::NotSupported)));
    assert!(matches!(yt.get_stream("x"), Err(ProviderError::NotSupported)));
    assert!(matches!(yt.get_lyrics("x"), Err(ProviderError::NotSupported)));
}
