use kf2_server::hls::parse::{parse_attributes, parse_playlist};
use kf2_server::hls::types::EncryptionState;

const BASE_URL: &str = "https://example.com/stream/playlist.m3u8";

fn duration_of(d: &Option<String>) -> f64 {
    d.as_ref().unwrap().parse::<f64>().unwrap()
}

#[test]
fn parse_basic_playlist() {
    let body = "\
#EXTM3U
#EXT-X-TARGETDURATION:10
#EXT-X-MEDIA-SEQUENCE:0
#EXTINF:9.009,
segment0.ts
#EXTINF:9.009,
segment1.ts
#EXTINF:3.003,
segment2.ts
#EXT-X-ENDLIST";
    let playlist = parse_playlist(BASE_URL, body).unwrap();
    assert_eq!(playlist.target_duration, Some(10));
    assert_eq!(playlist.media_sequence, 0);
    assert!(playlist.end_list);
    assert_eq!(playlist.segments.len(), 3);
    assert_eq!(playlist.segments[0].url, "https://example.com/stream/segment0.ts");
    assert!((duration_of(&playlist.segments[0].duration) - 9.009).abs() < 0.001);
    assert!((duration_of(&playlist.segments[2].duration) - 3.003).abs() < 0.001);
}

#[test]
fn parse_absolute_urls() {
    let body = "\
#EXTM3U
#EXTINF:5.0,
https://cdn.example.com/seg0.ts
#EXT-X-ENDLIST";
    let playlist = parse_playlist(BASE_URL, body).unwrap();
    assert_eq!(playlist.segments[0].url, "https://cdn.example.com/seg0.ts");
}

#[test]
fn parse_encryption_aes128_with_iv() {
    let body = "\
#EXTM3U
#EXT-X-KEY:METHOD=AES-128,URI=\"https://keys.example.com/key.bin\",IV=0x00000000000000000000000000000001
#EXTINF:10.0,
seg0.ts
#EXT-X-ENDLIST";
    let playlist = parse_playlist(BASE_URL, body).unwrap();
    match &playlist.segments[0].encryption {
        EncryptionState::Aes128 { key_url, iv } => {
            assert_eq!(key_url, "https://keys.example.com/key.bin");
            let expected_iv = {
                let mut iv = [0u8; 16];
                iv[15] = 1;
                iv
            };
            assert_eq!(iv.unwrap(), expected_iv);
        }
        _ => panic!("expected AES-128 encryption"),
    }
}

#[test]
fn parse_encryption_aes128_without_iv() {
    let body = "\
#EXTM3U
#EXT-X-KEY:METHOD=AES-128,URI=\"key.bin\"
#EXTINF:10.0,
seg0.ts
#EXT-X-ENDLIST";
    let playlist = parse_playlist(BASE_URL, body).unwrap();
    match &playlist.segments[0].encryption {
        EncryptionState::Aes128 { key_url, iv } => {
            assert_eq!(key_url, "https://example.com/stream/key.bin");
            assert!(iv.is_none());
        }
        _ => panic!("expected AES-128 encryption"),
    }
}

#[test]
fn parse_encryption_none_clears_state() {
    let body = "\
#EXTM3U
#EXT-X-KEY:METHOD=AES-128,URI=\"key.bin\"
#EXTINF:10.0,
seg0.ts
#EXT-X-KEY:METHOD=NONE
#EXTINF:10.0,
seg1.ts
#EXT-X-ENDLIST";
    let playlist = parse_playlist(BASE_URL, body).unwrap();
    assert!(matches!(playlist.segments[0].encryption, EncryptionState::Aes128 { .. }));
    assert!(matches!(playlist.segments[1].encryption, EncryptionState::Unencrypted));
}

#[test]
fn parse_byte_range_with_offset() {
    let body = "\
#EXTM3U
#EXT-X-BYTERANGE:1000@0
#EXTINF:5.0,
bigfile.ts
#EXT-X-BYTERANGE:1000@1000
#EXTINF:5.0,
bigfile.ts
#EXT-X-ENDLIST";
    let playlist = parse_playlist(BASE_URL, body).unwrap();
    let br0 = playlist.segments[0].byte_range.as_ref().unwrap();
    assert_eq!(br0.length, 1000);
    assert_eq!(br0.offset, 0);
    let br1 = playlist.segments[1].byte_range.as_ref().unwrap();
    assert_eq!(br1.length, 1000);
    assert_eq!(br1.offset, 1000);
}

#[test]
fn parse_byte_range_implicit_offset() {
    let body = "\
#EXTM3U
#EXT-X-BYTERANGE:500@0
#EXTINF:5.0,
bigfile.ts
#EXT-X-BYTERANGE:500
#EXTINF:5.0,
bigfile.ts
#EXT-X-ENDLIST";
    let playlist = parse_playlist(BASE_URL, body).unwrap();
    let br1 = playlist.segments[1].byte_range.as_ref().unwrap();
    assert_eq!(br1.length, 500);
    assert_eq!(br1.offset, 500);
}

#[test]
fn parse_init_segment() {
    let body = "\
#EXTM3U
#EXT-X-MAP:URI=\"init.mp4\"
#EXTINF:5.0,
seg0.m4s
#EXTINF:5.0,
seg1.m4s
#EXT-X-ENDLIST";
    let playlist = parse_playlist(BASE_URL, body).unwrap();
    let init = playlist.segments[0].init_segment.as_ref().unwrap();
    assert_eq!(init.url, "https://example.com/stream/init.mp4");
    assert!(init.byte_range.is_none());
    assert_eq!(playlist.segments[1].init_segment.as_ref().unwrap().url, init.url);
}

#[test]
fn parse_init_segment_with_byte_range() {
    let body = "\
#EXTM3U
#EXT-X-MAP:URI=\"combined.mp4\",BYTERANGE=\"652@0\"
#EXTINF:5.0,
seg0.m4s
#EXT-X-ENDLIST";
    let playlist = parse_playlist(BASE_URL, body).unwrap();
    let init = playlist.segments[0].init_segment.as_ref().unwrap();
    let br = init.byte_range.as_ref().unwrap();
    assert_eq!(br.length, 652);
    assert_eq!(br.offset, 0);
}

#[test]
fn parse_discontinuity() {
    let body = "\
#EXTM3U
#EXTINF:5.0,
seg0.ts
#EXT-X-DISCONTINUITY
#EXTINF:5.0,
seg1.ts
#EXTINF:5.0,
seg2.ts
#EXT-X-ENDLIST";
    let playlist = parse_playlist(BASE_URL, body).unwrap();
    assert!(!playlist.segments[0].discontinuity);
    assert!(playlist.segments[1].discontinuity);
    assert!(!playlist.segments[2].discontinuity);
}

#[test]
fn missing_extm3u_header() {
    let body = "#EXTINF:5.0,\nseg0.ts\n";
    let err = parse_playlist(BASE_URL, body).unwrap_err();
    assert!(err.to_string().contains("EXTM3U"));
}

#[test]
fn parse_attributes_handles_quoted_commas() {
    let input = r#"METHOD=AES-128,URI="https://example.com/key?a=1,b=2",IV=0x01"#;
    let attrs = parse_attributes(input);
    assert_eq!(attrs.get("METHOD").unwrap(), "AES-128");
    assert_eq!(attrs.get("URI").unwrap(), "https://example.com/key?a=1,b=2");
    assert_eq!(attrs.get("IV").unwrap(), "0x01");
}

#[test]
fn media_sequence_nonzero() {
    let body = "\
#EXTM3U
#EXT-X-MEDIA-SEQUENCE:42
#EXTINF:5.0,
seg42.ts
#EXT-X-ENDLIST";
    let playlist = parse_playlist(BASE_URL, body).unwrap();
    assert_eq!(playlist.media_sequence, 42);
}
