use aes::Aes128;
use cbc::cipher::{BlockEncryptMut, KeyIvInit};

use kf2_server::hls::download::{
    check_key, decrypt_aes128_cbc, init_filename, plan_download, range_header, render_playlist, segment_filename,
    sequence_iv, PlaylistLine,
};
use kf2_server::hls::error::HlsError;
use kf2_server::hls::parse::parse_playlist;
use kf2_server::hls::types::InitByteRange;

type Aes128CbcEnc = cbc::Encryptor<Aes128>;

#[test]
fn decrypt_known_vector() {
    let key = [0x01u8; 16];
    let iv = [0x02u8; 16];
    let plaintext = b"hello world!!!!!";

    let mut buf = [0u8; 32];
    buf[..16].copy_from_slice(plaintext);
    let ciphertext = Aes128CbcEnc::new(&key.into(), &iv.into())
        .encrypt_padded_mut::<cbc::cipher::block_padding::Pkcs7>(&mut buf, 16)
        .unwrap();

    let decrypted = decrypt_aes128_cbc(ciphertext, &key, &iv, "test").unwrap();
    assert_eq!(&decrypted, plaintext);
}

#[test]
fn decrypt_wrong_key_fails() {
    let key = [0x01u8; 16];
    let iv = [0x02u8; 16];
    let plaintext = b"hello world!!!!!";

    let mut buf = [0u8; 32];
    buf[..16].copy_from_slice(plaintext);
    let ciphertext = Aes128CbcEnc::new(&key.into(), &iv.into())
        .encrypt_padded_mut::<cbc::cipher::block_padding::Pkcs7>(&mut buf, 16)
        .unwrap()
        .to_vec();

    let wrong_key = [0xFFu8; 16];
    let result = decrypt_aes128_cbc(&ciphertext, &wrong_key, &iv, "test");
    assert!(result.is_err());
}

#[test]
fn decrypt_error_names_the_segment() {
    match decrypt_aes128_cbc(&[1, 2, 3], &[0u8; 16], &[0u8; 16], "seg_00003.ts") {
        Err(e) => assert_eq!(
            e.to_string(),
            "decryption failed for segment seg_00003.ts: AES-128-CBC decryption failed: Unpad Error"
        ),
        Ok(_) => panic!("a partial block cannot decrypt"),
    }
}

#[test]
fn key_must_be_sixteen_bytes() {
    assert_eq!(check_key("k", &[7u8; 16]).unwrap(), [7u8; 16]);
    match check_key("https://k/key.bin", &[1, 2, 3]) {
        Err(HlsError::Decryption { segment, reason }) => {
            assert_eq!(segment, "https://k/key.bin");
            assert_eq!(reason, "key must be 16 bytes, got 3");
        }
        other => panic!("unexpected {other:?}"),
    }
}

#[test]
fn file_names() {
    assert_eq!(segment_filename(0), "seg_00000.ts");
    assert_eq!(segment_filename(42), "seg_00042.ts");
    assert_eq!(segment_filename(123456), "seg_123456.ts");
    assert_eq!(init_filename(0), "init_0.ts");
    assert_eq!(init_filename(12), "init_12.ts");
}

#[test]
fn range_header_is_inclusive() {
    assert_eq!(range_header(InitByteRange { length: 652, offset: 0 }), "bytes=0-651");
    assert_eq!(range_header(InitByteRange { length: 500, offset: 500 }), "bytes=500-999");
}

#[test]
fn derived_iv_is_big_endian_sequence_number() {
    let iv = sequence_iv(42, 3);
    let mut expected = [0u8; 16];
    expected[15] = 45;
    assert_eq!(iv, expected);
    let iv = sequence_iv(0x0102, 0);
    assert_eq!(&iv[14..], &[1, 2]);
    assert_eq!(&iv[..8], &[0u8; 8]);
}

fn plan_of(body: &str) -> kf2_server::hls::download::DownloadPlan {
    let p = parse_playlist("https://example.com/s/p.m3u8", body).unwrap();
    plan_download(&p)
}

#[test]
fn init_segments_and_keys_are_fetched_once() {
    let body = "#EXTM3U\n\
#EXT-X-MAP:URI=\"init.mp4\"\n\
#EXT-X-KEY:METHOD=AES-128,URI=\"k1\"\n\
a.m4s\n\
b.m4s\n\
#EXT-X-MAP:URI=\"init2.mp4\"\n\
#EXT-X-KEY:METHOD=AES-128,URI=\"k2\"\n\
c.m4s\n\
#EXT-X-MAP:URI=\"init.mp4\"\n\
#EXT-X-KEY:METHOD=AES-128,URI=\"k1\"\n\
d.m4s\n";
    let plan = plan_of(body);
    let s = &plan.segments;
    assert_eq!(s.len(), 4);
    assert_eq!(s[0].init.as_ref().unwrap().filename, "init_0.ts");
    assert!(s[1].init.is_none());
    assert_eq!(s[2].init.as_ref().unwrap().filename, "init_1.ts");
    assert_eq!(s[2].init.as_ref().unwrap().url, "https://example.com/s/init2.mp4");
    assert!(s[3].init.is_none());
    let fetches: Vec<bool> = s.iter().map(|f| f.decryption.as_ref().unwrap().fetch_key).collect();
    assert_eq!(fetches, vec![true, false, true, false]);
    assert_eq!(s[3].decryption.as_ref().unwrap().key_url, "https://example.com/s/k1");
    assert_eq!(s[1].decryption.as_ref().unwrap().iv, sequence_iv(0, 1));
    assert_eq!(s[3].filename, "seg_00003.ts");
}

#[test]
fn rewritten_playlist_refers_to_local_files() {
    let body = "#EXTM3U\n#EXT-X-TARGETDURATION:6\n#EXT-X-MEDIA-SEQUENCE:7\n#EXT-X-MAP:URI=\"init.mp4\"\n#EXTINF:5.0,\na.m4s\n#EXT-X-DISCONTINUITY\n#EXTINF:4.5,\nb.m4s\n#EXT-X-ENDLIST\n";
    let plan = plan_of(body);
    let lines: Vec<String> = plan
        .lines
        .iter()
        .map(|l| match l {
            PlaylistLine::Text(t) => t.clone(),
            PlaylistLine::Extinf { segment } => format!("#EXTINF:<{segment}>,"),
        })
        .collect();
    assert_eq!(
        lines,
        vec![
            "#EXTM3U",
            "#EXT-X-TARGETDURATION:6",
            "#EXT-X-MEDIA-SEQUENCE:0",
            "#EXT-X-MAP:URI=\"init_0.ts\"",
            "#EXTINF:<0>,",
            "seg_00000.ts",
            "#EXT-X-DISCONTINUITY",
            "#EXTINF:<1>,",
            "seg_00001.ts",
            "#EXT-X-ENDLIST",
        ]
    );
    assert_eq!(render_playlist(&lines), lines.join("\n") + "\n");
    assert_eq!(render_playlist(&[]), "\n");
}
