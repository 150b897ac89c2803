//! Planning the download of a parsed playlist into a directory: which files
//! to fetch and decrypt under which names, and the playlist that refers to
//! the local copies. Performing the requests and writes is up to the caller.

use cbc::cipher::{BlockDecryptMut, KeyIvInit};
use vstd::prelude::*;

use super::error::{HlsError, SpecHlsError};
use super::types::{
    ByteRange, EncryptionState, InitByteRange, InitSegment, Playlist, Segment, SpecEncryption,
    SpecInitSegment, SpecPlaylist, SpecSegment, segments_view,
};
use crate::text::{chars_eq, chars_of, concat_str, decimal, decimal_chars, decimal_string, string_of};

verus! {

// ---------------------------------------------------------------------------
// Names and headers
// ---------------------------------------------------------------------------

/// `n` in decimal, zero-padded to at least five digits (`{:05}`).
pub open spec fn pad5(n: nat) -> Seq<char> {
    let d = decimal(n);
    if d.len() < 5 {
        Seq::new((5 - d.len()) as nat, |k: int| '0') + d
    } else {
        d
    }
}

/// The local file name of segment `i`: `seg_00007.ts`.
pub open spec fn segment_filename_spec(i: nat) -> Seq<char> {
    "seg_"@ + pad5(i) + ".ts"@
}

/// The local file name of the `k`-th distinct init segment: `init_0.ts`.
pub open spec fn init_filename_spec(k: nat) -> Seq<char> {
    "init_"@ + decimal(k) + ".ts"@
}

/// The name of segment `i` in the output directory.
pub fn segment_filename(i: usize) -> (r: String)
    ensures
        r@ == segment_filename_spec(i as nat),
{
    let d = decimal_chars(i as u128);
    let mut v: Vec<char> = Vec::new();
    let mut k: usize = d.len();
    while k < 5
        invariant
            d.len() <= k <= 5 || (d.len() > 5 && k == d.len()),
            v@ == Seq::new((k - d.len()) as nat, |j: int| '0'),
        decreases 5 - k,
    {
        v.push('0');
        k = k + 1;
        assert(v@ =~= Seq::new((k - d.len()) as nat, |j: int| '0'));
    }
    let ghost zeros = v@;
    let mut d2 = d;
    v.append(&mut d2);
    assert(v@ =~= pad5(i as nat)) by {
        if d@.len() >= 5 {
            assert(zeros =~= Seq::<char>::empty());
        }
    }
    let s = string_of(v.as_slice());
    let a = concat_str("seg_", s.as_str());
    a.concat(".ts")
}

/// The name of the `k`-th distinct init segment in the output directory.
pub fn init_filename(k: usize) -> (r: String)
    ensures
        r@ == init_filename_spec(k as nat),
{
    let d = decimal_string(k as u64);
    let a = concat_str("init_", d.as_str());
    a.concat(".ts")
}

/// The value of a `Range` request header for a byte range:
/// `bytes=<offset>-<last>`, where `last = offset + length - 1` computed with
/// wrap-around as release builds of the arithmetic do.
pub open spec fn range_header_spec(br: InitByteRange) -> Seq<char> {
    "bytes="@ + decimal(br.offset as nat) + "-"@ + decimal(
        br.offset.wrapping_add(br.length).wrapping_sub(1) as nat,
    )
}

/// The `Range` header value that selects `br`.
pub fn range_header(br: InitByteRange) -> (r: String)
    ensures
        r@ == range_header_spec(br),
{
    let end = br.offset.wrapping_add(br.length).wrapping_sub(1);
    let a = concat_str("bytes=", decimal_string(br.offset).as_str());
    let b = a.concat("-");
    b.concat(decimal_string(end).as_str())
}

// ---------------------------------------------------------------------------
// Initialization vectors and keys
// ---------------------------------------------------------------------------

pub open spec fn pow256(k: nat) -> nat
    decreases k,
{
    if k == 0 {
        1
    } else {
        256 * pow256((k - 1) as nat)
    }
}

/// The IV of a segment without an explicit one: the segment's media
/// sequence number as a 128-bit big-endian integer.
pub open spec fn derived_iv(media_sequence: u64, index: nat) -> Seq<u8> {
    let n = media_sequence.wrapping_add(index as u64);
    Seq::new(16, |k: int| if k < 8 { 0u8 } else { ((n as nat / pow256((15 - k) as nat)) % 256) as u8 })
}

/// The IV for segment `index` when the playlist gives none.
pub fn sequence_iv(media_sequence: u64, index: usize) -> (r: [u8; 16])
    ensures
        r@ == derived_iv(media_sequence, index as nat),
{
    let n = media_sequence.wrapping_add(index as u64);
    let mut iv = [0u8; 16];
    let mut rest = n;
    let mut k: usize = 16;
    assert(pow256(0) == 1);
    assert(n as nat / 1 == n as nat);
    while k > 8
        invariant
            8 <= k <= 16,
            n == media_sequence.wrapping_add((index as nat) as u64),
            rest as nat == n as nat / pow256((16 - k) as nat),
            forall|j: int| 0 <= j < k ==> iv@[j] == 0u8,
            forall|j: int| k <= j < 16 ==> iv@[j] == derived_iv(media_sequence, index as nat)[j],
        decreases k,
    {
        k = k - 1;
        let b = (rest % 256) as u8;
        proof {
            lemma_pow256_pos((15 - k) as nat);
            assert(pow256((16 - k) as nat) == 256 * pow256((15 - k) as nat));
            lemma_div_div(n as nat, pow256((15 - k) as nat));
        }
        iv[k] = b;
        assert(iv@[k as int] == derived_iv(media_sequence, index as nat)[k as int]);
        rest = rest / 256;
    }
    assert(iv@ =~= derived_iv(media_sequence, index as nat));
    iv
}

proof fn lemma_pow256_pos(k: nat)
    ensures
        pow256(k) > 0,
    decreases k,
{
    if k > 0 {
        lemma_pow256_pos((k - 1) as nat);
    }
}

proof fn lemma_div_div(n: nat, p: nat)
    requires
        p > 0,
    ensures
        n / p / 256 == n / (256 * p),
{
    vstd::arithmetic::div_mod::lemma_div_denominator(n as int, p as int, 256);
    vstd::arithmetic::mul::lemma_mul_is_commutative(p as int, 256);
}

/// The AES-128-CBC decryption with PKCS#7 unpadding of `data`, `None` when
/// the unpadding fails.
pub uninterp spec fn aes128_cbc_decrypt(data: Seq<u8>, key: Seq<u8>, iv: Seq<u8>) -> Option<Seq<u8>>;

/// Decrypts with the `aes` and `cbc` crates
/// (`cbc::Decryptor::<aes::Aes128>::decrypt_padded_mut::<Pkcs7>`). Its result
/// is named, not restated; the crate refuses input that is not a whole number
/// of 16-byte blocks.
#[verifier::external_body]
fn cbc_decrypt(data: &[u8], key: &[u8; 16], iv: &[u8; 16]) -> (r: Option<Vec<u8>>)
    ensures
        match r {
            Some(v) => aes128_cbc_decrypt(data@, key@, iv@) == Some(v@),
            None => aes128_cbc_decrypt(data@, key@, iv@) is None,
        },
        data@.len() % 16 != 0 ==> r is None,
{
    let mut buf = data.to_vec();
    cbc::Decryptor::<aes::Aes128>::new(key.into(), iv.into())
        .decrypt_padded_mut::<cbc::cipher::block_padding::Pkcs7>(&mut buf)
        .ok()
        .map(|d| d.to_vec())
}

/// Decrypts one segment with AES-128-CBC and PKCS#7 padding.
pub fn decrypt_aes128_cbc(data: &[u8], key: &[u8; 16], iv: &[u8; 16], segment_name: &str) -> (r:
    Result<Vec<u8>, HlsError>)
    ensures
        match aes128_cbc_decrypt(data@, key@, iv@) {
            Some(p) => r matches Ok(v) && v@ == p,
            None => r matches Err(e) && e@ == (SpecHlsError::Decryption {
                segment: segment_name@,
                reason: "AES-128-CBC decryption failed: Unpad Error"@,
            }),
        },
{
    match cbc_decrypt(data, key, iv) {
        Some(v) => Ok(v),
        None => Err(
            HlsError::Decryption {
                segment: String::from_str(segment_name),
                reason: String::from_str("AES-128-CBC decryption failed: Unpad Error"),
            },
        ),
    }
}

/// Checks that a fetched key is sixteen bytes long.
pub fn check_key(key_url: &str, bytes: &[u8]) -> (r: Result<[u8; 16], HlsError>)
    ensures
        bytes@.len() == 16 ==> (r matches Ok(k) && k@ == bytes@),
        bytes@.len() != 16 ==> (r matches Err(e) && e@ == (SpecHlsError::Decryption {
            segment: key_url@,
            reason: "key must be 16 bytes, got "@ + decimal(bytes@.len()),
        })),
{
    if bytes.len() != 16 {
        let n = decimal_string(bytes.len() as u64);
        return Err(
            HlsError::Decryption {
                segment: String::from_str(key_url),
                reason: concat_str("key must be 16 bytes, got ", n.as_str()),
            },
        );
    }
    let mut key = [0u8; 16];
    let mut i: usize = 0;
    while i < 16
        invariant
            bytes@.len() == 16,
            i <= 16,
            forall|j: int| 0 <= j < i ==> key@[j] == bytes@[j],
        decreases 16 - i,
    {
        key[i] = bytes[i];
        i = i + 1;
    }
    assert(key@ =~= bytes@);
    Ok(key)
}

} // verus!

verus! {

// ---------------------------------------------------------------------------
// The download plan
// ---------------------------------------------------------------------------

/// Index of the first element of `s` equal to `x`, or `s.len()` if none is.
pub open spec fn index_of<T>(s: Seq<T>, x: T) -> int
    decreases s.len(),
{
    if s.len() == 0 {
        0
    } else if s[0] == x {
        0
    } else {
        1 + index_of(s.drop_first(), x)
    }
}

proof fn lemma_index_of<T>(s: Seq<T>, x: T, i: int)
    requires
        0 <= i <= s.len(),
        i < s.len() ==> s[i] == x,
        forall|j: int| 0 <= j < i ==> s[j] != x,
    ensures
        index_of(s, x) == i,
    decreases s.len(),
{
    if s.len() > 0 && i > 0 {
        lemma_index_of(s.drop_first(), x, i - 1);
    }
}

/// The distinct init segments of `segs`, in order of first use.
pub open spec fn known_inits(segs: Seq<SpecSegment>) -> Seq<SpecInitSegment>
    decreases segs.len(),
{
    if segs.len() == 0 {
        seq![]
    } else {
        let k = known_inits(segs.drop_last());
        match segs.last().init_segment {
            Some(x) => if k.contains(x) {
                k
            } else {
                k.push(x)
            },
            None => k,
        }
    }
}

/// Whether an earlier segment than `i` is decrypted with the key at `url`.
pub open spec fn key_seen(segs: Seq<SpecSegment>, i: int, url: Seq<char>) -> bool {
    exists|j: int| 0 <= j < i && uses_key(#[trigger] segs[j], url)
}

/// Whether segment `s` is decrypted with the key at `url`.
pub open spec fn uses_key(s: SpecSegment, url: Seq<char>) -> bool {
    match s.encryption {
        SpecEncryption::Aes128 { key_url, .. } => key_url == url,
        SpecEncryption::Unencrypted => false,
    }
}

/// A line of the rewritten playlist. `Extinf` stands for the `#EXTINF`
/// line of a segment, whose duration the caller renders as a number.
#[derive(Debug)]
pub enum PlaylistLine {
    Text(String),
    Extinf { segment: usize },
}

pub enum SpecLine {
    Text(Seq<char>),
    Extinf(int),
}

impl View for PlaylistLine {
    type V = SpecLine;

    open spec fn view(&self) -> SpecLine {
        match self {
            PlaylistLine::Text(t) => SpecLine::Text(t@),
            PlaylistLine::Extinf { segment } => SpecLine::Extinf(*segment as int),
        }
    }
}

/// The header of the rewritten playlist; it renumbers media sequence to 0.
pub open spec fn header_lines(target_duration: Option<u64>) -> Seq<SpecLine> {
    seq![SpecLine::Text("#EXTM3U"@)] + match target_duration {
        Some(t) => seq![SpecLine::Text("#EXT-X-TARGETDURATION:"@ + decimal(t as nat))],
        None => seq![],
    } + seq![SpecLine::Text("#EXT-X-MEDIA-SEQUENCE:0"@)]
}

/// The init segment of the segment before `i`.
pub open spec fn previous_init(segs: Seq<SpecSegment>, i: int) -> Option<SpecInitSegment> {
    if i == 0 {
        None
    } else {
        segs[i - 1].init_segment
    }
}

/// The lines for segment `i`: an `EXT-X-MAP` naming the local init file when
/// the init segment changes, `EXT-X-DISCONTINUITY` when flagged, then the
/// duration and the local segment file.
pub open spec fn segment_lines(segs: Seq<SpecSegment>, i: int) -> Seq<SpecLine> {
    let map_lines = match segs[i].init_segment {
        Some(x) => if previous_init(segs, i) != Some(x) {
            seq![
                SpecLine::Text(
                    "#EXT-X-MAP:URI=\""@ + init_filename_spec(
                        index_of(known_inits(segs.take(i + 1)), x) as nat,
                    ) + "\""@,
                ),
            ]
        } else {
            seq![]
        },
        None => seq![],
    };
    let disc_lines = if segs[i].discontinuity {
        seq![SpecLine::Text("#EXT-X-DISCONTINUITY"@)]
    } else {
        seq![]
    };
    map_lines + disc_lines + seq![SpecLine::Extinf(i), SpecLine::Text(segment_filename_spec(i as nat))]
}

/// The lines for the first `n` segments.
pub open spec fn body_lines(segs: Seq<SpecSegment>, n: int) -> Seq<SpecLine>
    decreases n,
{
    if n <= 0 {
        seq![]
    } else {
        body_lines(segs, n - 1) + segment_lines(segs, n - 1)
    }
}

/// The whole rewritten playlist.
pub open spec fn playlist_lines_spec(p: SpecPlaylist) -> Seq<SpecLine> {
    header_lines(p.target_duration) + body_lines(p.segments, p.segments.len() as int) + if p.end_list {
        seq![SpecLine::Text("#EXT-X-ENDLIST"@)]
    } else {
        seq![]
    }
}

/// An init segment to download before a media segment.
#[derive(Debug)]
pub struct InitFetch {
    pub url: String,
    pub byte_range: Option<InitByteRange>,
    pub filename: String,
}

pub struct SpecInitFetch {
    pub url: Seq<char>,
    pub byte_range: Option<InitByteRange>,
    pub filename: Seq<char>,
}

/// How to decrypt a segment: the key's URL (to fetch only when `fetch_key`
/// is set; otherwise an earlier segment fetched it) and the IV.
#[derive(Debug)]
pub struct Decryption {
    pub key_url: String,
    pub iv: [u8; 16],
    pub fetch_key: bool,
}

pub struct SpecDecryption {
    pub key_url: Seq<char>,
    pub iv: Seq<u8>,
    pub fetch_key: bool,
}

/// Everything needed to fetch one segment into the output directory.
#[derive(Debug)]
pub struct SegmentFetch {
    pub init: Option<InitFetch>,
    pub url: String,
    pub byte_range: Option<InitByteRange>,
    pub decryption: Option<Decryption>,
    pub filename: String,
}

pub struct SpecSegmentFetch {
    pub init: Option<SpecInitFetch>,
    pub url: Seq<char>,
    pub byte_range: Option<InitByteRange>,
    pub decryption: Option<SpecDecryption>,
    pub filename: Seq<char>,
}

impl View for SegmentFetch {
    type V = SpecSegmentFetch;

    open spec fn view(&self) -> SpecSegmentFetch {
        SpecSegmentFetch {
            init: match self.init {
                Some(f) => Some(SpecInitFetch { url: f.url@, byte_range: f.byte_range, filename: f.filename@ }),
                None => None,
            },
            url: self.url@,
            byte_range: self.byte_range,
            decryption: match self.decryption {
                Some(d) => Some(SpecDecryption { key_url: d.key_url@, iv: d.iv@, fetch_key: d.fetch_key }),
                None => None,
            },
            filename: self.filename@,
        }
    }
}

/// What fetching segment `i` of a playlist involves.
pub open spec fn segment_fetch_spec(segs: Seq<SpecSegment>, media_sequence: u64, i: int) -> SpecSegmentFetch {
    let s = segs[i];
    let known = known_inits(segs.take(i));
    SpecSegmentFetch {
        init: match s.init_segment {
            Some(x) => if known.contains(x) {
                None
            } else {
                Some(
                    SpecInitFetch {
                        url: x.url,
                        byte_range: x.byte_range,
                        filename: init_filename_spec(known.len()),
                    },
                )
            },
            None => None,
        },
        url: s.url,
        byte_range: match s.byte_range {
            Some(b) => Some(InitByteRange { length: b.length, offset: b.offset }),
            None => None,
        },
        decryption: match s.encryption {
            SpecEncryption::Unencrypted => None,
            SpecEncryption::Aes128 { key_url, iv } => Some(
                SpecDecryption {
                    key_url,
                    iv: match iv {
                        Some(b) => b,
                        None => derived_iv(media_sequence, i as nat),
                    },
                    fetch_key: !key_seen(segs, i, key_url),
                },
            ),
        },
        filename: segment_filename_spec(i as nat),
    }
}

/// The files to fetch, in order, and the playlist that refers to them.
#[derive(Debug)]
pub struct DownloadPlan {
    pub segments: Vec<SegmentFetch>,
    pub lines: Vec<PlaylistLine>,
}

} // verus!

verus! {

pub open spec fn inits_view(s: Seq<InitSegment>) -> Seq<SpecInitSegment> {
    s.map_values(|x: InitSegment| x@)
}

pub open spec fn lines_view(s: Seq<PlaylistLine>) -> Seq<SpecLine> {
    s.map_values(|l: PlaylistLine| l@)
}

fn find_init(inits: &Vec<InitSegment>, x: &InitSegment) -> (r: usize)
    ensures
        r as int == index_of(inits_view(inits@), x@),
        r <= inits@.len(),
        r < inits@.len() <==> inits_view(inits@).contains(x@),
{
    let ghost v = inits_view(inits@);
    let mut j: usize = 0;
    while j < inits.len()
        invariant
            j <= inits@.len(),
            v == inits_view(inits@),
            forall|k: int| 0 <= k < j ==> v[k] != x@,
        decreases inits.len() - j,
    {
        if inits[j].same_as(x) {
            proof {
                assert(v[j as int] == x@);
                lemma_index_of(v, x@, j as int);
            }
            return j;
        }
        j = j + 1;
    }
    proof {
        lemma_index_of(v, x@, j as int);
        if v.contains(x@) {
            let k = choose|k: int| 0 <= k < v.len() && v[k] == x@;
            assert(v[k] != x@);
        }
    }
    j
}

fn key_known(keys: &Vec<Vec<char>>, url: &[char]) -> (r: bool)
    ensures
        r == exists|k: int| 0 <= k < keys@.len() && (#[trigger] keys@[k])@ == url@,
{
    let mut j: usize = 0;
    while j < keys.len()
        invariant
            j <= keys@.len(),
            forall|k: int| 0 <= k < j ==> (#[trigger] keys@[k])@ != url@,
        decreases keys.len() - j,
    {
        if chars_eq(keys[j].as_slice(), url) {
            return true;
        }
        j = j + 1;
    }
    false
}

fn map_line(filename: &str) -> (r: PlaylistLine)
    ensures
        r@ == SpecLine::Text("#EXT-X-MAP:URI=\""@ + filename@ + "\""@),
{
    let a = concat_str("#EXT-X-MAP:URI=\"", filename);
    PlaylistLine::Text(a.concat("\""))
}

fn text_line(t: &str) -> (r: PlaylistLine)
    ensures
        r@ == SpecLine::Text(t@),
{
    PlaylistLine::Text(String::from_str(t))
}

proof fn lemma_known_inits_step(segs: Seq<SpecSegment>, i: int)
    requires
        0 <= i < segs.len(),
    ensures
        known_inits(segs.take(i + 1)) == match segs[i].init_segment {
            Some(x) => if known_inits(segs.take(i)).contains(x) {
                known_inits(segs.take(i))
            } else {
                known_inits(segs.take(i)).push(x)
            },
            None => known_inits(segs.take(i)),
        },
{
    assert(segs.take(i + 1).drop_last() =~= segs.take(i));
    assert(segs.take(i + 1).last() == segs[i]);
}

} // verus!

verus! {

pub struct SpecDownloadPlan {
    pub segments: Seq<SpecSegmentFetch>,
    pub lines: Seq<SpecLine>,
}

impl View for DownloadPlan {
    type V = SpecDownloadPlan;

    open spec fn view(&self) -> SpecDownloadPlan {
        SpecDownloadPlan {
            segments: self.segments@.map_values(|f: SegmentFetch| f@),
            lines: lines_view(self.lines@),
        }
    }
}

/// Plans the download of `playlist` into a directory: for each segment, in
/// order, the init segment to fetch first (once per distinct init segment),
/// the ranged request, the key and IV to decrypt with (each key fetched once),
/// and the local file name; plus the playlist that refers to those files.
pub fn plan_download(playlist: &Playlist) -> (r: DownloadPlan)
    ensures
        r@.lines == playlist_lines_spec(playlist@),
        r@.segments.len() == playlist@.segments.len(),
        forall|i: int|
            0 <= i < r@.segments.len() ==> r@.segments[i] == segment_fetch_spec(
                playlist@.segments,
                playlist.media_sequence,
                i,
            ),
{
    let ghost segs = playlist@.segments;
    let ms = playlist.media_sequence;
    let n = playlist.segments.len();
    let mut lines: Vec<PlaylistLine> = Vec::new();
    lines.push(text_line("#EXTM3U"));
    match playlist.target_duration {
        Some(t) => {
            let a = concat_str("#EXT-X-TARGETDURATION:", decimal_string(t).as_str());
            lines.push(PlaylistLine::Text(a));
        },
        None => {},
    }
    lines.push(text_line("#EXT-X-MEDIA-SEQUENCE:0"));
    assert(lines_view(lines@) =~= header_lines(playlist.target_duration) + body_lines(segs, 0));
    let mut inits: Vec<InitSegment> = Vec::new();
    let mut keys: Vec<Vec<char>> = Vec::new();
    let mut fetches: Vec<SegmentFetch> = Vec::new();
    assert(segs.take(0) =~= Seq::<SpecSegment>::empty());
    assert(inits_view(inits@) =~= known_inits(segs.take(0)));
    let mut i: usize = 0;
    while i < n
        invariant
            n == playlist.segments@.len(),
            segs == playlist@.segments,
            ms == playlist.media_sequence,
            i <= n,
            lines_view(lines@) == header_lines(playlist.target_duration) + body_lines(segs, i as int),
            inits_view(inits@) == known_inits(segs.take(i as int)),
            forall|u: Seq<char>|
                (exists|k: int| 0 <= k < keys@.len() && (#[trigger] keys@[k])@ == u) <==> #[trigger] key_seen(
                    segs,
                    i as int,
                    u,
                ),
            fetches@.len() == i,
            forall|j: int|
                0 <= j < i ==> (#[trigger] fetches@[j])@ == segment_fetch_spec(segs, ms, j),
        decreases n - i,
    {
        let seg = &playlist.segments[i];
        assert(segs[i as int] == seg@);
        proof {
            lemma_known_inits_step(segs, i as int);
        }
        let ghost known = inits_view(inits@);
        // The init segment, downloaded once.
        let init_fetch = match &seg.init_segment {
            Some(x) => {
                let j = find_init(&inits, x);
                if j == inits.len() {
                    let f = InitFetch { url: x.url.clone(), byte_range: x.byte_range, filename: init_filename(j) };
                    let ghost before = inits@;
                    inits.push(x.duplicate());
                    assert(inits_view(inits@) =~= inits_view(before).push(x@));
                    Some(f)
                } else {
                    None
                }
            },
            None => None,
        };
        assert(inits_view(inits@) == known_inits(segs.take(i + 1)));
        // Its lines in the rewritten playlist.
        let ghost before_lines = lines_view(lines@);
        let mut seg_lines: Vec<PlaylistLine> = Vec::new();
        match &seg.init_segment {
            Some(x) => {
                let changed = if i == 0 {
                    true
                } else {
                    match &playlist.segments[i - 1].init_segment {
                        Some(p) => !p.same_as(x),
                        None => true,
                    }
                };
                assert(i > 0 ==> segs[i - 1] == playlist.segments@[i - 1]@);
                if changed {
                    let j = find_init(&inits, x);
                    seg_lines.push(map_line(init_filename(j).as_str()));
                }
            },
            None => {},
        }
        if seg.discontinuity {
            seg_lines.push(text_line("#EXT-X-DISCONTINUITY"));
        }
        seg_lines.push(PlaylistLine::Extinf { segment: i });
        seg_lines.push(PlaylistLine::Text(segment_filename(i)));
        assert(lines_view(seg_lines@) =~= segment_lines(segs, i as int));
        let ghost sl = lines_view(seg_lines@);
        lines.append(&mut seg_lines);
        assert(lines_view(lines@) =~= before_lines + sl);
        assert(body_lines(segs, i + 1) == body_lines(segs, i as int) + segment_lines(segs, i as int));
        assert(lines_view(lines@) =~= header_lines(playlist.target_duration) + body_lines(
            segs,
            i + 1,
        ));
        // Its key and IV.
        let ghost keys_before = keys@;
        let decryption = match &seg.encryption {
            EncryptionState::Unencrypted => None,
            EncryptionState::Aes128 { key_url, iv } => {
                let u = chars_of(key_url.as_str());
                let seen = key_known(&keys, u.as_slice());
                if !seen {
                    keys.push(u);
                }
                assert(seen ==> keys@ == keys_before);
                assert(!seen ==> keys@ == keys_before.push(u));
                let ivb = match iv {
                    Some(b) => *b,
                    None => sequence_iv(ms, i),
                };
                Some(Decryption { key_url: key_url.clone(), iv: ivb, fetch_key: !seen })
            },
        };
        let f = SegmentFetch {
            init: init_fetch,
            url: seg.url.clone(),
            byte_range: match seg.byte_range {
                Some(b) => Some(InitByteRange { length: b.length, offset: b.offset }),
                None => None,
            },
            decryption,
            filename: segment_filename(i),
        };
        assert(f@ == segment_fetch_spec(segs, ms, i as int));
        assert(seg.encryption is Unencrypted ==> keys@ == keys_before);
        fetches.push(f);
        proof {
            assert forall|u: Seq<char>|
                (exists|k: int| 0 <= k < keys@.len() && (#[trigger] keys@[k])@ == u) <==> #[trigger] key_seen(
                    segs,
                    i + 1,
                    u,
                ) by {
                let in_before = exists|k: int|
                    0 <= k < keys_before.len() && (#[trigger] keys_before[k])@ == u;
                let in_after = exists|k: int| 0 <= k < keys@.len() && (#[trigger] keys@[k])@ == u;
                assert(in_before <==> key_seen(segs, i as int, u));
                if key_seen(segs, i + 1, u) {
                    let j = choose|j: int| 0 <= j < i + 1 && uses_key(#[trigger] segs[j], u);
                    if j < i {
                        assert(key_seen(segs, i as int, u));
                    }
                }
                if key_seen(segs, i as int, u) {
                    let j = choose|j: int| 0 <= j < i && uses_key(#[trigger] segs[j], u);
                    assert(0 <= j < i + 1 && uses_key(segs[j], u));
                }
                if in_before {
                    let k = choose|k: int| 0 <= k < keys_before.len() && (#[trigger] keys_before[k])@ == u;
                    assert(keys@[k] == keys_before[k]);
                }
                if uses_key(segs[i as int], u) {
                    assert(key_seen(segs, i + 1, u));
                    if !in_before {
                        assert(keys@[keys@.len() - 1]@ == u);
                    }
                } else {
                    if in_after {
                        let k = choose|k: int| 0 <= k < keys@.len() && (#[trigger] keys@[k])@ == u;
                        if k < keys_before.len() {
                            assert(keys_before[k] == keys@[k]);
                        }
                    }
                }
            }
        }
        i = i + 1;
    }
    assert(segs.len() == n);
    let mut tail: Vec<PlaylistLine> = Vec::new();
    if playlist.end_list {
        tail.push(text_line("#EXT-X-ENDLIST"));
    }
    let ghost before_tail = lines_view(lines@);
    let ghost tv = lines_view(tail@);
    lines.append(&mut tail);
    assert(lines_view(lines@) =~= before_tail + tv);
    assert(lines_view(lines@) =~= playlist_lines_spec(playlist@));
    let plan = DownloadPlan { segments: fetches, lines };
    assert(plan@.segments.len() == n);
    plan
}

} // verus!

verus! {

/// Each line followed by a newline.
pub open spec fn terminated_lines(s: Seq<Seq<char>>) -> Seq<char>
    decreases s.len(),
{
    if s.len() == 0 {
        seq![]
    } else {
        terminated_lines(s.drop_last()) + s.last() + "\n"@
    }
}

/// The text of a playlist: its lines joined by newlines, with a final
/// newline.
pub open spec fn playlist_text(s: Seq<Seq<char>>) -> Seq<char> {
    if s.len() == 0 {
        "\n"@
    } else {
        terminated_lines(s)
    }
}

/// The views of a sequence of strings.
pub open spec fn texts_of(v: Seq<String>) -> Seq<Seq<char>> {
    v.map_values(|l: String| l@)
}

/// Renders the lines of a playlist as its file's text (see [`playlist_text`]).
pub fn render_playlist(lines: &[String]) -> (r: String)
    ensures
        r@ == playlist_text(texts_of(lines@)),
{
    if lines.len() == 0 {
        return String::from_str("\n");
    }
    let mut out = String::new();
    let mut i: usize = 0;
    while i < lines.len()
        invariant
            i <= lines@.len(),
            out@ == terminated_lines(texts_of(lines@).take(i as int)),
        decreases lines@.len() - i,
    {
        let ghost before = out@;
        out = out.concat(lines[i].as_str());
        out = out.concat("\n");
        proof {
            let t = texts_of(lines@);
            assert(t.take(i + 1).drop_last() =~= t.take(i as int));
            assert(t.take(i + 1).last() == lines@[i as int]@);
        }
        i = i + 1;
    }
    assert(texts_of(lines@).take(i as int) =~= texts_of(lines@));
    out
}

} // verus!
