use kf2_server::hls::error::HlsError;
use kf2_server::hls::fetch::{is_retryable, playlist_base_url, retry_playlist, TransportFailure, PLAYLIST_MAX_RETRIES};
use kf2_server::hls::parse::{parse_attributes, parse_playlist, PlaylistParser, Resolution};
use kf2_server::hls::types::EncryptionState;

const BASE: &str = "https://example.com/stream/playlist.m3u8";

fn parse_error(body: &str) -> String {
    match parse_playlist(BASE, body) {
        Err(HlsError::Parse(m)) => m,
        other => panic!("expected a parse error, got {other:?}"),
    }
}

#[test]
fn segments_count_only_uri_lines() {
    let body = "#EXTM3U\n\n# a comment\n#EXT-X-UNKNOWN:1\n#EXTINF:1.0,\na.ts\n\n#EXTINF:2.0,\nb.ts\n#EXT-X-ENDLIST\n";
    let p = parse_playlist(BASE, body).unwrap();
    assert_eq!(p.segments.len(), 2);
    assert_eq!(p.segments[0].url, "https://example.com/stream/a.ts");
    assert_eq!(p.segments[1].url, "https://example.com/stream/b.ts");
}

#[test]
fn header_must_be_the_first_line() {
    assert_eq!(parse_error("\n#EXTM3U\n#EXTINF:1.0,\na.ts\n"), "missing #EXTM3U header");
    assert_eq!(parse_error(""), "missing #EXTM3U header");
    assert!(parse_playlist(BASE, "  #EXTM3U  \r\na.ts").is_ok());
}

#[test]
fn header_only_playlist_is_empty() {
    let p = parse_playlist(BASE, "#EXTM3U").unwrap();
    assert!(p.segments.is_empty());
    assert!(!p.end_list);
    assert_eq!(p.target_duration, None);
}

#[test]
fn segment_without_extinf_has_no_duration() {
    let p = parse_playlist(BASE, "#EXTM3U\nseg.ts\n").unwrap();
    assert_eq!(p.segments[0].duration, None);
}

#[test]
fn implicit_offset_restarts_after_discontinuity() {
    let body = "#EXTM3U\n#EXT-X-BYTERANGE:500@100\nx.ts\n#EXT-X-DISCONTINUITY\n#EXT-X-BYTERANGE:70\ny.ts\n";
    let p = parse_playlist(BASE, body).unwrap();
    let br = p.segments[1].byte_range.as_ref().unwrap();
    assert_eq!((br.length, br.offset), (70, 0));
    assert!(p.segments[1].discontinuity);
}

#[test]
fn implicit_offset_follows_previous_range() {
    let body = "#EXTM3U\n#EXT-X-BYTERANGE:500@100\nx.ts\n#EXT-X-BYTERANGE:70\ny.ts\n#EXT-X-BYTERANGE:5\nz.ts\n";
    let p = parse_playlist(BASE, body).unwrap();
    let b1 = p.segments[1].byte_range.as_ref().unwrap();
    let b2 = p.segments[2].byte_range.as_ref().unwrap();
    assert_eq!((b1.length, b1.offset), (70, 600));
    assert_eq!((b2.length, b2.offset), (5, 670));
}

#[test]
fn bad_tag_values_are_refused() {
    assert_eq!(parse_error("#EXTM3U\n#EXT-X-TARGETDURATION:ten\n"), "bad TARGETDURATION: invalid digit found in string");
    assert_eq!(parse_error("#EXTM3U\n#EXT-X-MEDIA-SEQUENCE:\n"), "bad MEDIA-SEQUENCE: cannot parse integer from empty string");
    assert_eq!(parse_error("#EXTM3U\n#EXTINF:abc,\na.ts\n"), "bad EXTINF duration: invalid float literal");
    assert_eq!(parse_error("#EXTM3U\n#EXTINF:,\na.ts\n"), "bad EXTINF duration: cannot parse float from empty string");
    assert_eq!(parse_error("#EXTM3U\n#EXT-X-BYTERANGE:x@0\na.ts\n"), "bad byte range length: invalid digit found in string");
    assert_eq!(parse_error("#EXTM3U\n#EXT-X-BYTERANGE:10@y\na.ts\n"), "bad byte range offset: invalid digit found in string");
}

#[test]
fn key_and_map_errors() {
    assert_eq!(parse_error("#EXTM3U\n#EXT-X-KEY:URI=\"k\"\n"), "EXT-X-KEY missing METHOD");
    assert_eq!(parse_error("#EXTM3U\n#EXT-X-KEY:METHOD=AES-128\n"), "AES-128 key missing URI");
    assert_eq!(parse_error("#EXTM3U\n#EXT-X-MAP:BYTERANGE=\"1@0\"\n"), "EXT-X-MAP missing URI");
    assert_eq!(parse_error("#EXTM3U\n#EXT-X-KEY:METHOD=AES-128,URI=\"k\",IV=0x0102\n"), "IV must be 16 bytes, got 2");
    match parse_playlist(BASE, "#EXTM3U\n#EXT-X-KEY:METHOD=SAMPLE-AES,URI=\"k\"\n") {
        Err(HlsError::UnsupportedEncryption(m)) => assert_eq!(m, "SAMPLE-AES"),
        other => panic!("expected unsupported encryption, got {other:?}"),
    }
}

#[test]
fn explicit_iv_without_prefix_is_accepted() {
    let body = "#EXTM3U\n#EXT-X-KEY:METHOD=AES-128,URI=\"k\",IV=000102030405060708090A0B0C0D0E0F\na.ts\n";
    let p = parse_playlist(BASE, body).unwrap();
    match &p.segments[0].encryption {
        EncryptionState::Aes128 { iv: Some(iv), .. } => {
            assert_eq!(iv[0], 0);
            assert_eq!(iv[15], 15);
        }
        other => panic!("unexpected {other:?}"),
    }
}

#[test]
fn relative_uri_against_invalid_base_is_refused() {
    match parse_playlist("not a url", "#EXTM3U\nseg.ts\n") {
        Err(HlsError::Parse(m)) => assert!(m.starts_with("cannot resolve URL 'seg.ts': ")),
        other => panic!("expected a parse error, got {other:?}"),
    }
    let p = parse_playlist("not a url", "#EXTM3U\nhttps://cdn.example.com/a.ts\n").unwrap();
    assert_eq!(p.segments[0].url, "https://cdn.example.com/a.ts");
}

#[test]
fn relative_uri_resolution_follows_the_url_crate() {
    let p = parse_playlist(BASE, "#EXTM3U\n../other/a.ts\n/root.ts\n").unwrap();
    assert_eq!(p.segments[0].url, "https://example.com/other/a.ts");
    assert_eq!(p.segments[1].url, "https://example.com/root.ts");
}

#[test]
fn attribute_keys_are_trimmed_and_uppercased_and_last_wins() {
    let attrs = parse_attributes(" method = NONE , Method=AES-128,uri=\"unterminated");
    assert_eq!(attrs.get("METHOD").unwrap(), "AES-128");
    assert_eq!(attrs.get("URI").unwrap(), "unterminated");
    assert!(attrs.get("method").is_none());
    assert!(attrs.get("IV").is_none());
}

#[test]
fn playlist_url_is_normalized_or_refused() {
    assert_eq!(playlist_base_url("https://example.com").unwrap(), "https://example.com/");
    match playlist_base_url("no scheme") {
        Err(HlsError::Parse(m)) => assert_eq!(m, "invalid URL: relative URL without a base"),
        other => panic!("expected a parse error, got {other:?}"),
    }
}

#[test]
fn retry_decision() {
    let f = |timeout, connect, status| TransportFailure { timeout, connect, status };
    assert!(is_retryable(&f(true, false, None)));
    assert!(is_retryable(&f(false, true, None)));
    assert!(is_retryable(&f(false, false, Some(503))));
    assert!(is_retryable(&f(false, false, Some(403))));
    assert!(is_retryable(&f(false, false, Some(408))));
    assert!(is_retryable(&f(false, false, Some(429))));
    assert!(!is_retryable(&f(false, false, Some(404))));
    assert!(!is_retryable(&f(false, false, Some(600))));
    assert!(!is_retryable(&f(false, false, None)));
}

#[test]
fn attribute_keys_occur_once_where_first_given() {
    let attrs = parse_attributes("a=1,B=2,A=3");
    assert_eq!(attrs.pairs, vec![("A".to_string(), "3".to_string()), ("B".to_string(), "2".to_string())]);
}

#[test]
fn playlist_is_requested_at_most_five_times() {
    let timeout = TransportFailure { timeout: true, connect: false, status: None };
    let not_found = TransportFailure { timeout: false, connect: false, status: Some(404) };
    assert_eq!(PLAYLIST_MAX_RETRIES, 4);
    let mut requests = 1;
    while retry_playlist(requests, &timeout) {
        requests += 1;
    }
    assert_eq!(requests, 5);
    assert!(!retry_playlist(1, &not_found));
}

#[test]
fn lines_are_read_with_a_given_resolution() {
    let mut p = PlaylistParser::new();
    let given = Resolution::Given(Ok("https://cdn.example/seg0.ts".to_string()));
    p.read_line("#EXTINF:5.0,", &given).unwrap();
    p.read_line("seg0.ts", &given).unwrap();
    p.read_line("https://abs.example/x.ts", &Resolution::Given(Err("unused".into()))).unwrap();
    let err = p.read_line("bad.ts", &Resolution::Given(Err("boom".into()))).unwrap_err();
    assert_eq!(err.to_string(), "failed to parse m3u8 playlist: cannot resolve URL 'bad.ts': boom");
    let playlist = p.finish();
    assert_eq!(playlist.segments.len(), 2);
    assert_eq!(playlist.segments[0].url, "https://cdn.example/seg0.ts");
    assert_eq!(playlist.segments[0].duration.as_deref(), Some("5.0"));
    assert_eq!(playlist.segments[1].url, "https://abs.example/x.ts");
    assert_eq!(playlist.segments[1].duration, None);
}
