use kf2_server::asset_cache::{
    asset_dir, asset_dir_name, classify_lookup, download_url, entry_to_cached, evict_outcome, fetch_after_create_dir,
    fetch_after_download, fetch_after_file_check, fetch_after_row_drop, fetch_after_row_read, fetch_after_row_write, join,
    record_download, AssetCacheEntry, AssetCacheError, CachedAsset, DirRemoval, FetchStep, FileCheck, LookupOutcome,
};
use kf2_server::hls::error::HlsError;
use kf2_server::provider::types::{Asset, AssetId, MediaStream, ProviderId};

fn dam_id(body: &str) -> AssetId {
    AssetId::new(ProviderId::Dam, body.to_string())
}

#[test]
fn dir_name_replaces_colons() {
    assert_eq!(asset_dir_name(&dam_id("contentsId:1")), "urn_dam_contentsId_1");
    assert_eq!(asset_dir(".kf2-cache", &dam_id("x")), ".kf2-cache/urn_dam_x");
    assert_eq!(asset_dir("/cache/", &dam_id("x")), "/cache/urn_dam_x");
}

#[test]
fn path_joining() {
    assert_eq!(join("a", "b"), "a/b");
    assert_eq!(join("a/", "b"), "a/b");
    assert_eq!(join("", "b"), "b");
    assert_eq!(join("a", "/abs"), "/abs");
    assert_eq!(join("a", ""), "a/");
}

#[test]
fn recorded_row_reads_back_as_the_same_asset() {
    let id = dam_id("contentsId:5778352");
    let (row, cached) = record_download("/var/cache", &id, "playlist.m3u8");
    assert_eq!(row.asset_id, "urn:dam:contentsId:5778352");
    assert_eq!(row.relative_path, "urn_dam_contentsId_5778352/playlist.m3u8");
    assert_eq!(cached.local_path, "/var/cache/urn_dam_contentsId_5778352/playlist.m3u8");
    let back = entry_to_cached("/var/cache", &row).unwrap();
    assert_eq!(back.id, cached.id);
    assert_eq!(back.local_path, cached.local_path);
}

#[test]
fn malformed_rows_are_reported() {
    let row = AssetCacheEntry { asset_id: "urn:spotify:1".into(), relative_path: "x/playlist.m3u8".into() };
    match entry_to_cached("c", &row) {
        Err(e @ AssetCacheError::MalformedRow { .. }) => {
            assert_eq!(e.to_string(), "malformed cache row for asset_id urn:spotify:1: unknown provider `spotify`")
        }
        other => panic!("unexpected {other:?}"),
    }
}

#[test]
fn unsupported_sources_are_refused() {
    let hls = MediaStream::Hls { url_high: "https://h/p.m3u8".into(), url_low: None };
    assert_eq!(download_url(&hls).unwrap(), "https://h/p.m3u8");
    let direct = MediaStream::DirectVideo { video_url: "v".into(), audio_url: None };
    assert!(matches!(download_url(&direct), Err(AssetCacheError::UnsupportedSource("direct_video"))));
    let yt = MediaStream::YouTubeDownload { video_id: "dQw4w9WgXcQ".into() };
    let err = download_url(&yt).unwrap_err();
    assert!(matches!(err, AssetCacheError::UnsupportedSource("youtube_download")));
    assert_eq!(err.to_string(), "unsupported asset source: youtube_download");
}

#[test]
fn lookup_outcomes() {
    let cached = || CachedAsset { id: dam_id("1"), local_path: "c/urn_dam_1/playlist.m3u8".into() };
    assert!(matches!(classify_lookup(cached(), FileCheck::Present), LookupOutcome::Cached(c) if c.local_path == "c/urn_dam_1/playlist.m3u8"));
    assert!(matches!(classify_lookup(cached(), FileCheck::Missing), LookupOutcome::StaleRow));
    match classify_lookup(cached(), FileCheck::Failed("denied".into())) {
        LookupOutcome::Failed(e) => assert_eq!(e.to_string(), "io error on c/urn_dam_1/playlist.m3u8: denied"),
        _ => panic!("expected an io error"),
    }
}

#[test]
fn eviction_outcomes() {
    assert!(evict_outcome(true, "d".into(), DirRemoval::Removed).unwrap());
    assert!(!evict_outcome(false, "d".into(), DirRemoval::NotFound).unwrap());
    assert!(matches!(evict_outcome(true, "d".into(), DirRemoval::Failed("busy".into())), Err(AssetCacheError::Io { path, .. }) if path == "d"));
}

#[test]
fn wrapped_errors_display_transparently() {
    assert_eq!(AssetCacheError::Repo("database error: locked".into()).to_string(), "database error: locked");
    assert_eq!(AssetCacheError::Hls(HlsError::Parse("x".into())).to_string(), "failed to parse m3u8 playlist: x");
}

fn hls_asset(body: &str) -> Asset {
    Asset { id: dam_id(body), source: MediaStream::Hls { url_high: "https://cdn.example/p.m3u8".into(), url_low: None } }
}

#[test]
fn fetch_downloads_then_short_circuits() {
    let root = "/cache";
    let asset = hls_asset("contentsId:test123");
    // First fetch: no row, so create the directory and download.
    let dir = match fetch_after_row_read(root, &asset, Ok(None)) {
        FetchStep::CreateDir(d) => d,
        _ => panic!("expected CreateDir"),
    };
    assert_eq!(dir, "/cache/urn_dam_contentsId_test123");
    match fetch_after_create_dir(root, &asset, Ok(())) {
        FetchStep::Download { url, dir: d } => {
            assert_eq!(url, "https://cdn.example/p.m3u8");
            assert_eq!(d, dir);
        }
        _ => panic!("expected Download"),
    }
    let (row, cached) = match fetch_after_download(root, &asset, Ok("playlist.m3u8".into())) {
        FetchStep::WriteRow(row, cached) => (row, cached),
        _ => panic!("expected WriteRow"),
    };
    assert_eq!(row.asset_id, "urn:dam:contentsId:test123");
    assert_eq!(row.relative_path, "urn_dam_contentsId_test123/playlist.m3u8");
    assert_eq!(cached.local_path, "/cache/urn_dam_contentsId_test123/playlist.m3u8");
    let c1 = match fetch_after_row_write(cached, Ok(())) {
        FetchStep::Done(Ok(c)) => c,
        _ => panic!("expected the asset"),
    };
    // Second fetch: the row reads back, its file is there, nothing is downloaded.
    let found = match fetch_after_row_read(root, &asset, Ok(Some(row))) {
        FetchStep::CheckFile(c) => c,
        _ => panic!("expected CheckFile"),
    };
    assert_eq!(found.local_path, c1.local_path);
    match fetch_after_file_check(found, FileCheck::Present) {
        FetchStep::Done(Ok(c2)) => {
            assert_eq!(c2.local_path, c1.local_path);
            assert_eq!(c2.id, c1.id);
        }
        _ => panic!("expected the cached asset"),
    }
}

#[test]
fn fetch_repairs_stale_row_when_file_missing() {
    let root = "/cache";
    let asset = hls_asset("x");
    let cached = CachedAsset { id: dam_id("x"), local_path: "/cache/urn_dam_x/playlist.m3u8".into() };
    assert!(matches!(fetch_after_file_check(cached, FileCheck::Missing), FetchStep::DropStaleRow));
    match fetch_after_row_drop(root, &asset, Ok(true)) {
        FetchStep::CreateDir(d) => assert_eq!(d, "/cache/urn_dam_x"),
        _ => panic!("expected CreateDir"),
    }
    match fetch_after_row_drop(root, &asset, Err("locked".into())) {
        FetchStep::Done(Err(e)) => assert_eq!(e.to_string(), "locked"),
        _ => panic!("expected a store error"),
    }
}

#[test]
fn fetch_step_failures() {
    let root = "/cache";
    let video = Asset {
        id: AssetId::new(ProviderId::Joysound, "v".to_string()),
        source: MediaStream::DirectVideo { video_url: "https://v".into(), audio_url: None },
    };
    match fetch_after_create_dir(root, &video, Ok(())) {
        FetchStep::Done(Err(e)) => assert_eq!(e.to_string(), "unsupported asset source: direct_video"),
        _ => panic!("expected a refusal"),
    }
    match fetch_after_create_dir(root, &hls_asset("x"), Err("denied".into())) {
        FetchStep::Done(Err(e)) => assert_eq!(e.to_string(), "io error on /cache/urn_dam_x: denied"),
        _ => panic!("expected an io error"),
    }
    match fetch_after_download(root, &hls_asset("x"), Err(HlsError::Http("503".into()))) {
        FetchStep::Done(Err(AssetCacheError::Hls(HlsError::Http(m)))) => assert_eq!(m, "503"),
        _ => panic!("expected the download error"),
    }
    let bad = AssetCacheEntry { asset_id: "nope".into(), relative_path: "a/b".into() };
    assert!(matches!(fetch_after_row_read(root, &hls_asset("x"), Ok(Some(bad))), FetchStep::Done(Err(AssetCacheError::MalformedRow { .. }))));
    assert!(matches!(fetch_after_row_read(root, &hls_asset("x"), Err("gone".into())), FetchStep::Done(Err(AssetCacheError::Repo(_)))));
}

#[test]
fn evict_twice_reports_then_finds_nothing() {
    assert!(matches!(evict_outcome(true, "/cache/urn_dam_x".into(), DirRemoval::Removed), Ok(true)));
    assert!(matches!(evict_outcome(false, "/cache/urn_dam_x".into(), DirRemoval::NotFound), Ok(false)));
}
