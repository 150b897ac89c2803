use kf2_server::asset_cache::AssetCacheEntry;
use kf2_server::asset_tool::{
    after_fetch, dam_dotfile_path, describe_source, evict_message, fetch_provider, listing_lines, DamStoredSession,
    RemintNext, MAX_REMINT_ATTEMPTS,
};
use kf2_server::dam_tool::{
    dotfile_path, given_password, hls_url, output_dir, proxy_auth_text, proxy_basic_auth, proxy_text, session_text,
    StoredSession,
};
use kf2_server::models::session::{
    after_insert, session_id_from_words, CreateNext, CreateSessionError, InsertOutcome, CREATE_SESSION_MAX_RETRIES,
};
use kf2_server::models::Session;
use kf2_server::provider::dam::LoginData;
use kf2_server::provider::types::{AssetId, MediaStream, ProviderId};
use kf2_server::tools::{ffmpeg, ytdlp};

#[test]
fn generate_session_id_shape() {
    let id = Session::new_session_id();
    let parts: Vec<&str> = id.split('-').collect();
    assert_eq!(parts.len(), 3, "id {id:?} should have 3 segments");
    assert!(parts.iter().all(|p| !p.is_empty()));
}

#[test]
fn every_english_word_can_stand_in_a_session_id() {
    let words = random_word::all(random_word::Lang::En);
    assert!(!words.is_empty());
    for w in words {
        assert!(!w.is_empty(), "empty word in the list");
        assert!(!w.contains('-'), "word {w:?} holds a dash");
    }
}

#[test]
fn session_ids_join_three_words() {
    assert_eq!(session_id_from_words("brave", "quiet", "otter"), "brave-quiet-otter");
}

#[test]
fn session_creation_retries_taken_ids_then_gives_up() {
    assert_eq!(CREATE_SESSION_MAX_RETRIES, 3);
    assert!(matches!(after_insert::<u8, ()>(1, InsertOutcome::Inserted(7)), CreateNext::Finish(Ok(7))));
    assert!(matches!(after_insert::<u8, ()>(1, InsertOutcome::DuplicateId), CreateNext::TryAnotherId));
    assert!(matches!(after_insert::<u8, ()>(2, InsertOutcome::DuplicateId), CreateNext::TryAnotherId));
    assert!(matches!(after_insert::<u8, ()>(3, InsertOutcome::DuplicateId), CreateNext::Finish(Err(CreateSessionError::IdRetriesExhausted))));
    assert!(matches!(after_insert::<u8, &str>(1, InsertOutcome::Failed("io")), CreateNext::Finish(Err(CreateSessionError::Store("io")))));
}

#[test]
fn fetch_remints_until_the_last_attempt() {
    assert_eq!(MAX_REMINT_ATTEMPTS, 3);
    assert!(matches!(after_fetch::<u8, &str>(1, Ok(5)), RemintNext::Done(5)));
    assert!(matches!(after_fetch::<u8, &str>(1, Err("403")), RemintNext::Remint));
    assert!(matches!(after_fetch::<u8, &str>(2, Err("403")), RemintNext::Remint));
    assert!(matches!(after_fetch::<u8, &str>(3, Err("last")), RemintNext::GiveUp("last")));
}

#[test]
fn only_dam_is_wired_up_for_fetch() {
    assert_eq!(fetch_provider("dam").unwrap(), ProviderId::Dam);
    assert_eq!(fetch_provider("joysound").unwrap_err(), "provider `joysound` is not yet wired up in asset-tool");
    assert_eq!(
        fetch_provider("youtube").unwrap_err(),
        "unknown provider `youtube`: Matching variant not found (try one of: dam, joysound, youtube)"
    );
}

#[test]
fn reports() {
    assert_eq!(describe_source(&MediaStream::Hls { url_high: "h".into(), url_low: None }), "hls");
    assert_eq!(describe_source(&MediaStream::YouTubeDownload { video_id: "v".into() }), "youtube_download");
    assert_eq!(listing_lines(&[]), vec!["(empty)".to_string()]);
    let rows = [AssetCacheEntry { asset_id: "urn:dam:1".into(), relative_path: "urn_dam_1/playlist.m3u8".into() }];
    assert_eq!(listing_lines(&rows), vec!["urn:dam:1\turn_dam_1/playlist.m3u8".to_string()]);
    let id = AssetId::new(ProviderId::Dam, "contentsId:1".into());
    assert_eq!(evict_message(true, &id, ".kf2-cache"), "evicted urn:dam:contentsId:1 from cache at .kf2-cache");
    assert_eq!(evict_message(false, &id, "c"), "no row found for urn:dam:contentsId:1 (cache dir: c)");
    assert_eq!(proxy_text(None), "<not set>");
    assert_eq!(proxy_text(Some("http://p:8080")), "http://p:8080");
    assert_eq!(proxy_auth_text(Some("u"), Some("p")), "username=u");
    assert_eq!(proxy_auth_text(Some("u"), None), "username=u (no password)");
    assert_eq!(proxy_auth_text(None, Some("p")), "<none>");
    assert_eq!(session_text(Some("D1")), "damtomoId=D1");
    assert_eq!(session_text(None), "<none>");
    assert_eq!(dotfile_path(), ".dam-tool.json");
    assert_eq!(dam_dotfile_path(), ".asset-tool.dam.json");
}

#[test]
fn login_and_download_choices() {
    assert_eq!(given_password(Some("pw")).as_deref(), Some("pw"));
    assert_eq!(given_password(Some("")), None);
    assert_eq!(given_password(None), None);
    assert_eq!(proxy_basic_auth(Some("u"), None), Some(("u".to_string(), String::new())));
    assert_eq!(proxy_basic_auth(None, Some("p")), None);
    assert_eq!(output_dir("1234-56", ""), "1234-56");
    assert_eq!(output_dir("1234-56", "out"), "out");
    assert_eq!(hls_url(MediaStream::Hls { url_high: "hi".into(), url_low: Some("lo".into()) }).unwrap(), "hi");
    assert!(matches!(hls_url(MediaStream::YouTubeDownload { video_id: "v".into() }), Err(MediaStream::YouTubeDownload { .. })));
    let data = LoginData { auth_token: "tok".into(), damtomo_id: "D1".into() };
    let s = StoredSession::from_login("user".into(), &data);
    assert_eq!((s.user_code.as_str(), s.damtomo_id.as_str(), s.auth_token.as_str()), ("user", "D1", "tok"));
    let d = DamStoredSession::from_login("user".into(), &data);
    assert_eq!(d.auth_token, "tok");
}

#[test]
fn tool_versions_are_read_from_their_output() {
    assert_eq!(
        ffmpeg::parse_version_output("ffmpeg version 6.1.1 Copyright (c) 2000-2023\nbuilt with gcc\n").as_deref(),
        Some("6.1.1")
    );
    assert_eq!(ffmpeg::parse_version_output("not the expected banner\n"), None);
    assert_eq!(ffmpeg::parse_version_output(""), None);
    assert_eq!(ytdlp::parse_version_output("2026.03.17\n").as_deref(), Some("2026.03.17"));
    assert_eq!(ytdlp::parse_version_output("\r\n"), None);
}

#[test]
fn session_rows_clone_their_timestamps() {
    let t = chrono::NaiveDate::from_ymd_opt(2026, 3, 17).unwrap().and_hms_opt(9, 10, 11).unwrap();
    let s = Session { id: "brave-quiet-otter".into(), created_at: t, updated_at: t };
    let c = s.clone();
    assert_eq!(c.id, s.id);
    assert_eq!(c.created_at, t);
    assert_eq!(c.updated_at.to_string(), "2026-03-17 09:10:11");
}
