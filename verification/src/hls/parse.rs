//! Parsing of m3u8 media playlists.
//!
//! The format is line based: a first line `#EXTM3U`, then tags that set
//! state (`#EXT-X-KEY`, `#EXT-X-MAP`, `#EXTINF`, `#EXT-X-BYTERANGE`, ...) and
//! URI lines, each of which yields one segment carrying the state in force.

use vstd::prelude::*;

use super::error::{HlsError, SpecHlsError};
use super::fetch::url_parse;
use super::types::{
    ByteRange, EncryptionState, InitByteRange, InitSegment, Playlist, Segment, SpecEncryption,
    SpecInitSegment, SpecPlaylist, SpecSegment, segments_view,
};
use crate::text::{
    IntParseError, chars_eq, chars_of, concat_str, decimal, decimal_string, find_char, first_index,
    float_literal, has_prefix, int_error_message, int_error_text, is_float_literal, lemma_first_index, lemma_ws_bounds,
    lines_of, parse_u64, parse_u64_spec, split_lines, starts_with, string_of, subvec, trim,
    trim_chars, trim_start, trim_start_chars, views_of,
};

verus! {

// ---------------------------------------------------------------------------
// Outside computations: URL resolution, hex decoding, case mapping
// ---------------------------------------------------------------------------

/// What `url::Url::join` gives when the base URL is the one whose
/// serialization is `base` (as `url::Url::parse` produced it) and the
/// reference is `reference`: the serialization of the joined URL, or the
/// display text of the error.
pub uninterp spec fn url_join(base: Seq<char>, reference: Seq<char>) -> Result<Seq<char>, Seq<char>>;

/// Resolves `reference` against `base` with the `url` crate: `Url::parse(base)`
/// (named by [`url_parse`]), then `join(reference)` on the parsed URL (named
/// by [`url_join`]), serialized with `to_string`. WHATWG URL resolution is
/// not restated.
#[verifier::external_body]
fn join_url(base: &str, reference: &str) -> (r: Result<String, String>)
    ensures
        match url_parse(base@) {
            Err(e) => r matches Err(x) && x@ == e,
            Ok(b) => match url_join(b, reference@) {
                Ok(u) => r matches Ok(x) && x@ == u,
                Err(e) => r matches Err(x) && x@ == e,
            },
        },
{
    url::Url::parse(base).and_then(|b| b.join(reference)).map(|u| u.to_string()).map_err(
        |e| e.to_string(),
    )
}

pub open spec fn is_hex_digit(c: char) -> bool {
    ('0' <= c && c <= '9') || ('a' <= c && c <= 'f') || ('A' <= c && c <= 'F')
}

pub open spec fn hex_value(c: char) -> int {
    if '0' <= c && c <= '9' {
        (c as int) - ('0' as int)
    } else if 'a' <= c && c <= 'f' {
        (c as int) - ('a' as int) + 10
    } else {
        (c as int) - ('A' as int) + 10
    }
}

/// Text that `hex::decode` accepts: an even number of hex digits.
pub open spec fn is_hex_text(s: Seq<char>) -> bool {
    s.len() % 2 == 0 && forall|i: int| 0 <= i < s.len() ==> is_hex_digit(#[trigger] s[i])
}

/// The bytes that a run of hex digit pairs denotes.
pub open spec fn hex_bytes(s: Seq<char>) -> Seq<u8> {
    Seq::new(s.len() / 2, |i: int| (hex_value(s[2 * i]) * 16 + hex_value(s[2 * i + 1])) as u8)
}

/// The display text of the error `hex::decode` reports for `s`.
pub uninterp spec fn hex_decode_error(s: Seq<char>) -> Seq<char>;

/// `hex::decode` on the bytes of `s`: it succeeds exactly on an even number of
/// hex digits (either case) and yields the byte of each pair; on other input
/// its error is rendered with `to_string`, whose text is only named here.
#[verifier::external_body]
fn decode_hex(s: &str) -> (r: Result<Vec<u8>, String>)
    ensures
        r is Ok <==> is_hex_text(s@),
        r matches Ok(v) ==> v@ == hex_bytes(s@),
        r matches Err(e) ==> e@ == hex_decode_error(s@),
{
    hex::decode(s).map_err(|e| e.to_string())
}

/// What `str::to_uppercase` gives (full Unicode case mapping).
pub uninterp spec fn uppercase(s: Seq<char>) -> Seq<char>;

/// Text made of ASCII characters only.
pub open spec fn is_ascii_text(s: Seq<char>) -> bool {
    forall|i: int| 0 <= i < s.len() ==> (#[trigger] s[i] as u32) < 128
}

/// The upper-case form of an ASCII character: `a`-`z` become `A`-`Z`, every
/// other character is kept.
pub open spec fn ascii_upper_char(c: char) -> char {
    if 'a' <= c && c <= 'z' {
        ((c as u32) - 32) as char
    } else {
        c
    }
}

/// `str::to_uppercase`. On ASCII text the Unicode mapping is the ASCII one:
/// `a`-`z` become `A`-`Z` and every other character stays as it is, one for
/// one. Beyond ASCII the result is only named.
#[verifier::external_body]
fn to_uppercase_str(s: &str) -> (r: String)
    ensures
        r@ == uppercase(s@),
        is_ascii_text(s@) ==> r@ == s@.map_values(|c: char| ascii_upper_char(c)),
{
    s.to_uppercase()
}

} // verus!

verus! {

// ---------------------------------------------------------------------------
// Attribute lists: `KEY=value,KEY="quoted, value",...`
// ---------------------------------------------------------------------------

/// The value that starts `after` (just past an `=`) and the text left after it.
pub open spec fn attr_value(after: Seq<char>) -> (Seq<char>, Seq<char>) {
    if after.len() > 0 && after[0] == '"' {
        let aq = after.drop_first();
        let end = first_index(aq, '"');
        if end < aq.len() {
            let rest = aq.skip(end + 1);
            (aq.take(end), if rest.len() > 0 && rest[0] == ',' {
                rest.drop_first()
            } else {
                rest
            })
        } else {
            (aq, Seq::empty())
        }
    } else {
        let c = first_index(after, ',');
        if c < after.len() {
            (after.take(c), after.skip(c + 1))
        } else {
            (after, Seq::empty())
        }
    }
}

pub proof fn lemma_attr_value_shrinks(after: Seq<char>)
    ensures
        attr_value(after).1.len() <= after.len(),
{
    if after.len() > 0 && after[0] == '"' {
        lemma_first_index(after.drop_first(), '"');
    } else {
        lemma_first_index(after, ',');
    }
}

/// The `(KEY, value)` pairs of an attribute list, in order. Keys are
/// trimmed and upper-cased; quoted values may hold commas.
pub open spec fn attr_pairs(rem: Seq<char>) -> Seq<(Seq<char>, Seq<char>)>
    decreases rem.len(),
{
    if rem.len() == 0 {
        seq![]
    } else {
        let eq = first_index(rem, '=');
        proof {
            lemma_first_index(rem, '=');
        }
        if eq < rem.len() {
            let key = uppercase(trim(rem.take(eq)));
            let after = rem.skip(eq + 1);
            let (value, rest) = attr_value(after);
            proof {
                lemma_attr_value_shrinks(after);
                lemma_ws_bounds(rest);
            }
            seq![(key, value)] + attr_pairs(trim_start(rest))
        } else {
            seq![]
        }
    }
}

/// The value bound to `key`: the last pair with that key, as when the pairs
/// are inserted one by one into a map.
pub open spec fn attr_lookup(pairs: Seq<(Seq<char>, Seq<char>)>, key: Seq<char>) -> Option<Seq<char>>
    decreases pairs.len(),
{
    if pairs.len() == 0 {
        None
    } else if pairs.last().0 == key {
        Some(pairs.last().1)
    } else {
        attr_lookup(pairs.drop_last(), key)
    }
}

/// The parsed attribute list of `input`.
pub open spec fn parse_attributes_spec(input: Seq<char>) -> Seq<(Seq<char>, Seq<char>)> {
    attr_pairs(trim(input))
}

/// Whether no key occurs twice among the pairs.
pub open spec fn keys_distinct(m: Seq<(Seq<char>, Seq<char>)>) -> bool {
    forall|i: int, j: int| 0 <= i < j < m.len() ==> #[trigger] m[i].0 != #[trigger] m[j].0
}

/// Whether some pair has the key `k`.
pub open spec fn has_key(m: Seq<(Seq<char>, Seq<char>)>, k: Seq<char>) -> bool {
    exists|i: int| 0 <= i < m.len() && (#[trigger] m[i]).0 == k
}

/// Binds `k` to `v` among pairs with distinct keys: the pair that has the key
/// takes the new value where it stands; a new key goes at the end.
pub open spec fn bind_attr(m: Seq<(Seq<char>, Seq<char>)>, k: Seq<char>, v: Seq<char>) -> Seq<(Seq<char>, Seq<char>)> {
    if has_key(m, k) {
        m.update(choose|i: int| 0 <= i < m.len() && (#[trigger] m[i]).0 == k, (k, v))
    } else {
        m.push((k, v))
    }
}

/// The map that inserting `pairs` one by one builds: each key once, where it
/// first appears, bound to its last value.
pub open spec fn attr_map(pairs: Seq<(Seq<char>, Seq<char>)>) -> Seq<(Seq<char>, Seq<char>)>
    decreases pairs.len(),
{
    if pairs.len() == 0 {
        seq![]
    } else {
        bind_attr(attr_map(pairs.drop_last()), pairs.last().0, pairs.last().1)
    }
}

proof fn lemma_bind_attr_at(m: Seq<(Seq<char>, Seq<char>)>, k: Seq<char>, j: int)
    requires
        keys_distinct(m),
        0 <= j < m.len(),
        m[j].0 == k,
    ensures
        (choose|i: int| 0 <= i < m.len() && (#[trigger] m[i]).0 == k) == j,
{
    assert(0 <= j < m.len() && m[j].0 == k);
    let c = choose|i: int| 0 <= i < m.len() && (#[trigger] m[i]).0 == k;
    if c != j {
        if c < j {
            assert(m[c].0 != m[j].0);
        } else {
            assert(m[j].0 != m[c].0);
        }
    }
}

proof fn lemma_bind_attr_distinct(m: Seq<(Seq<char>, Seq<char>)>, k: Seq<char>, v: Seq<char>)
    requires
        keys_distinct(m),
    ensures
        keys_distinct(bind_attr(m, k, v)),
        bind_attr(m, k, v).len() == m.len() || bind_attr(m, k, v).len() == m.len() + 1,
{
    let b = bind_attr(m, k, v);
    if has_key(m, k) {
        let c = choose|i: int| 0 <= i < m.len() && (#[trigger] m[i]).0 == k;
        assert forall|i: int, j: int| 0 <= i < j < b.len() implies #[trigger] b[i].0 != #[trigger] b[j].0 by {
            if i == c {
                assert(m[c].0 != m[j].0);
            } else if j == c {
                assert(m[i].0 != m[c].0);
            }
        }
    } else {
        assert forall|i: int, j: int| 0 <= i < j < b.len() implies #[trigger] b[i].0 != #[trigger] b[j].0 by {
            if j == m.len() {
                if b[i].0 == k {
                    assert(0 <= i < m.len() && m[i].0 == k);
                }
            }
        }
    }
}

proof fn lemma_lookup_at(m: Seq<(Seq<char>, Seq<char>)>, j: int)
    requires
        keys_distinct(m),
        0 <= j < m.len(),
    ensures
        attr_lookup(m, m[j].0) == Some(m[j].1),
    decreases m.len(),
{
    if j < m.len() - 1 {
        assert(m.last().0 != m[j].0);
        let d = m.drop_last();
        assert(d[j] == m[j]);
        assert(keys_distinct(d)) by {
            assert forall|a: int, b: int| 0 <= a < b < d.len() implies #[trigger] d[a].0 != #[trigger] d[b].0 by {
                assert(d[a] == m[a] && d[b] == m[b]);
            }
        }
        lemma_lookup_at(d, j);
    }
}

proof fn lemma_lookup_absent(m: Seq<(Seq<char>, Seq<char>)>, k: Seq<char>)
    requires
        !has_key(m, k),
    ensures
        attr_lookup(m, k) is None,
    decreases m.len(),
{
    if m.len() > 0 {
        let d = m.drop_last();
        assert(m[m.len() - 1] == m.last());
        assert(!has_key(d, k)) by {
            if has_key(d, k) {
                let i = choose|i: int| 0 <= i < d.len() && (#[trigger] d[i]).0 == k;
                assert(d[i] == m[i]);
            }
        }
        lemma_lookup_absent(d, k);
    }
}

/// Looking `k` up among distinct-key pairs: the value of the pair with that key.
proof fn lemma_lookup_distinct(m: Seq<(Seq<char>, Seq<char>)>, k: Seq<char>)
    requires
        keys_distinct(m),
    ensures
        has_key(m, k) ==> attr_lookup(m, k) == Some(m[choose|i: int| 0 <= i < m.len() && (#[trigger] m[i]).0 == k].1),
        !has_key(m, k) ==> attr_lookup(m, k) is None,
{
    if has_key(m, k) {
        let c = choose|i: int| 0 <= i < m.len() && (#[trigger] m[i]).0 == k;
        lemma_lookup_at(m, c);
    } else {
        lemma_lookup_absent(m, k);
    }
}

proof fn lemma_bind_attr_lookup(m: Seq<(Seq<char>, Seq<char>)>, k: Seq<char>, v: Seq<char>, q: Seq<char>)
    requires
        keys_distinct(m),
    ensures
        attr_lookup(bind_attr(m, k, v), q) == (if q == k {
            Some(v)
        } else {
            attr_lookup(m, q)
        }),
{
    let b = bind_attr(m, k, v);
    lemma_bind_attr_distinct(m, k, v);
    if has_key(m, k) {
        let c = choose|i: int| 0 <= i < m.len() && (#[trigger] m[i]).0 == k;
        if q == k {
            lemma_lookup_at(b, c);
        } else if has_key(m, q) {
            let e = choose|i: int| 0 <= i < m.len() && (#[trigger] m[i]).0 == q;
            lemma_lookup_at(m, e);
            assert(e != c);
            assert(b[e] == m[e]);
            lemma_lookup_at(b, e);
        } else {
            lemma_lookup_absent(m, q);
            assert(!has_key(b, q)) by {
                if has_key(b, q) {
                    let i = choose|i: int| 0 <= i < b.len() && (#[trigger] b[i]).0 == q;
                    if i != c {
                        assert(b[i] == m[i]);
                    }
                }
            }
            lemma_lookup_absent(b, q);
        }
    } else {
        assert(b.drop_last() =~= m);
        assert(b.last() == (k, v));
    }
}

/// Inserting the pairs of an attribute list one by one leaves each key once,
/// bound to the value that a lookup in the pairs gives: its last value.
pub proof fn law_attr_map_keeps_last_values(pairs: Seq<(Seq<char>, Seq<char>)>)
    ensures
        keys_distinct(attr_map(pairs)),
        forall|k: Seq<char>| #[trigger] attr_lookup(attr_map(pairs), k) == attr_lookup(pairs, k),
    decreases pairs.len(),
{
    if pairs.len() > 0 {
        let d = pairs.drop_last();
        law_attr_map_keeps_last_values(d);
        let m = attr_map(d);
        lemma_bind_attr_distinct(m, pairs.last().0, pairs.last().1);
        assert forall|k: Seq<char>| #[trigger] attr_lookup(attr_map(pairs), k) == attr_lookup(pairs, k) by {
            lemma_bind_attr_lookup(m, pairs.last().0, pairs.last().1, k);
        }
    }
}

// ---------------------------------------------------------------------------
// Tag values
// ---------------------------------------------------------------------------

/// How the URI found on a playlist line is resolved when it is not an
/// absolute `http(s)` URL: against the playlist's URL with the `url` crate,
/// or with an outcome that the caller gives (the serialization of the
/// resolved URL, or the text of the error).
pub enum UriResolution {
    Against(Seq<char>),
    Given(Result<Seq<char>, Seq<char>>),
}

/// The outcome of resolving the relative URI `uri` (see [`UriResolution`]).
pub open spec fn resolution_outcome(res: UriResolution, uri: Seq<char>) -> Result<Seq<char>, Seq<char>> {
    match res {
        UriResolution::Against(base) => match url_parse(base) {
            Ok(b) => url_join(b, uri),
            Err(e) => Err(e),
        },
        UriResolution::Given(g) => g,
    }
}

/// Absolute `http(s)` URIs are kept; others are resolved (see
/// [`UriResolution`]), and a failure is reported with the URI.
pub open spec fn resolve_uri(res: UriResolution, uri: Seq<char>) -> Result<Seq<char>, SpecHlsError> {
    if has_prefix(uri, "http://"@) || has_prefix(uri, "https://"@) {
        Ok(uri)
    } else {
        match resolution_outcome(res, uri) {
            Ok(u) => Ok(u),
            Err(e) => Err(SpecHlsError::Parse("cannot resolve URL '"@ + uri + "': "@ + e)),
        }
    }
}

/// `resolve_url`: absolute `http(s)` URIs are kept, others are resolved
/// against the playlist URL.
pub open spec fn resolve_url_spec(base: Seq<char>, uri: Seq<char>) -> Result<Seq<char>, SpecHlsError> {
    resolve_uri(UriResolution::Against(base), uri)
}

/// `LENGTH[@OFFSET]`; a missing offset is `default_offset`.
pub open spec fn byte_range_spec(s: Seq<char>, default_offset: u64) -> Result<ByteRange, SpecHlsError> {
    let t = trim(s);
    let at = first_index(t, '@');
    let (length_text, offset) = if at < t.len() {
        match parse_u64_spec(t.skip(at + 1)) {
            Ok(o) => (t.take(at), Ok(o)),
            Err(e) => (t.take(at), Err(e)),
        }
    } else {
        (t, Ok(default_offset))
    };
    match offset {
        Err(e) => Err(SpecHlsError::Parse("bad byte range offset: "@ + int_error_text(e))),
        Ok(o) => match parse_u64_spec(length_text) {
            Err(e) => Err(SpecHlsError::Parse("bad byte range length: "@ + int_error_text(e))),
            Ok(l) => Ok(ByteRange { length: l, offset: o }),
        },
    }
}

/// The hex digits of an IV, without a `0x`/`0X` prefix.
pub open spec fn iv_digits(s: Seq<char>) -> Seq<char> {
    if has_prefix(s, "0x"@) || has_prefix(s, "0X"@) {
        s.skip(2)
    } else {
        s
    }
}

/// An `IV=0x...` attribute: exactly sixteen bytes of hex.
pub open spec fn iv_spec(s: Seq<char>) -> Result<Seq<u8>, SpecHlsError> {
    let h = iv_digits(s);
    if !is_hex_text(h) {
        Err(SpecHlsError::Parse("bad IV hex: "@ + hex_decode_error(h)))
    } else if hex_bytes(h).len() != 16 {
        Err(SpecHlsError::Parse("IV must be 16 bytes, got "@ + decimal(hex_bytes(h).len())))
    } else {
        Ok(hex_bytes(h))
    }
}

/// The encryption an `EXT-X-KEY` attribute list sets, fetched from `base`.
pub open spec fn key_spec(attrs_text: Seq<char>, base: Seq<char>) -> Result<SpecEncryption, SpecHlsError> {
    key_spec_by(attrs_text, UriResolution::Against(base))
}

/// The encryption an `EXT-X-KEY` attribute list sets, its key URI resolved
/// by `res`.
pub open spec fn key_spec_by(attrs_text: Seq<char>, res: UriResolution) -> Result<SpecEncryption, SpecHlsError> {
    let attrs = parse_attributes_spec(attrs_text);
    match attr_lookup(attrs, "METHOD"@) {
        None => Err(SpecHlsError::Parse("EXT-X-KEY missing METHOD"@)),
        Some(method) => if method == "NONE"@ {
            Ok(SpecEncryption::Unencrypted)
        } else if method == "AES-128"@ {
            match attr_lookup(attrs, "URI"@) {
                None => Err(SpecHlsError::Parse("AES-128 key missing URI"@)),
                Some(uri) => match resolve_uri(res, uri) {
                    Err(e) => Err(e),
                    Ok(key_url) => match attr_lookup(attrs, "IV"@) {
                        None => Ok(SpecEncryption::Aes128 { key_url, iv: None }),
                        Some(iv_text) => match iv_spec(iv_text) {
                            Ok(iv) => Ok(SpecEncryption::Aes128 { key_url, iv: Some(iv) }),
                            Err(e) => Err(e),
                        },
                    },
                },
            }
        } else {
            Err(SpecHlsError::UnsupportedEncryption(method))
        },
    }
}

/// The init segment an `EXT-X-MAP` attribute list names, fetched from `base`.
pub open spec fn map_spec(attrs_text: Seq<char>, base: Seq<char>) -> Result<SpecInitSegment, SpecHlsError> {
    map_spec_by(attrs_text, UriResolution::Against(base))
}

/// The init segment an `EXT-X-MAP` attribute list names, its URI resolved
/// by `res`.
pub open spec fn map_spec_by(attrs_text: Seq<char>, res: UriResolution) -> Result<SpecInitSegment, SpecHlsError> {
    let attrs = parse_attributes_spec(attrs_text);
    match attr_lookup(attrs, "URI"@) {
        None => Err(SpecHlsError::Parse("EXT-X-MAP missing URI"@)),
        Some(uri) => match resolve_uri(res, uri) {
            Err(e) => Err(e),
            Ok(url) => match attr_lookup(attrs, "BYTERANGE"@) {
                None => Ok(SpecInitSegment { url, byte_range: None }),
                Some(br_text) => match byte_range_spec(br_text, 0) {
                    Ok(br) => Ok(
                        SpecInitSegment {
                            url,
                            byte_range: Some(InitByteRange { length: br.length, offset: br.offset }),
                        },
                    ),
                    Err(e) => Err(e),
                },
            },
        },
    }
}

/// The duration field of an `EXTINF` (the text before the first comma).
pub open spec fn extinf_spec(rest: Seq<char>) -> Result<Seq<char>, SpecHlsError> {
    let d = trim(rest.take(first_index(rest, ',')));
    if float_literal(d) {
        Ok(d)
    } else if d.len() == 0 {
        Err(SpecHlsError::Parse("bad EXTINF duration: cannot parse float from empty string"@))
    } else {
        Err(SpecHlsError::Parse("bad EXTINF duration: invalid float literal"@))
    }
}

} // verus!

verus! {

pub open spec fn pairs_view(s: Seq<(Vec<char>, Vec<char>)>) -> Seq<(Seq<char>, Seq<char>)> {
    s.map_values(|p: (Vec<char>, Vec<char>)| (p.0@, p.1@))
}

fn split_attr_value(after: &[char]) -> (r: (Vec<char>, Vec<char>))
    ensures
        (r.0@, r.1@) == attr_value(after@),
{
    if after.len() > 0 && after[0] == '"' {
        let aq = subvec(after, 1, after.len());
        assert(aq@ =~= after@.drop_first());
        match find_char(aq.as_slice(), '"') {
            Some(end) => {
                let value = subvec(aq.as_slice(), 0, end);
                let rest = subvec(aq.as_slice(), end + 1, aq.len());
                assert(value@ =~= aq@.take(end as int));
                assert(rest@ =~= aq@.skip(end + 1));
                if rest.len() > 0 && rest[0] == ',' {
                    let r2 = subvec(rest.as_slice(), 1, rest.len());
                    assert(r2@ =~= rest@.drop_first());
                    (value, r2)
                } else {
                    (value, rest)
                }
            },
            None => {
                let e: Vec<char> = Vec::new();
                assert(e@ =~= Seq::<char>::empty());
                (aq, e)
            },
        }
    } else {
        match find_char(after, ',') {
            Some(c) => {
                let value = subvec(after, 0, c);
                let rest = subvec(after, c + 1, after.len());
                assert(value@ =~= after@.take(c as int));
                assert(rest@ =~= after@.skip(c + 1));
                (value, rest)
            },
            None => {
                let value = subvec(after, 0, after.len());
                let e: Vec<char> = Vec::new();
                assert(value@ =~= after@);
                assert(e@ =~= Seq::<char>::empty());
                (value, e)
            },
        }
    }
}

/// The `(KEY, value)` pairs of an attribute list (see [`attr_pairs`]).
fn attr_pairs_exec(v: &[char]) -> (r: Vec<(Vec<char>, Vec<char>)>)
    ensures
        pairs_view(r@) == attr_pairs(v@),
{
    let mut out: Vec<(Vec<char>, Vec<char>)> = Vec::new();
    let mut rem: Vec<char> = subvec(v, 0, v.len());
    assert(rem@ =~= v@);
    assert(pairs_view(out@) + attr_pairs(rem@) =~= attr_pairs(v@));
    while rem.len() > 0
        invariant
            attr_pairs(v@) == pairs_view(out@) + attr_pairs(rem@),
        decreases rem@.len(),
    {
        proof {
            lemma_first_index(rem@, '=');
        }
        match find_char(rem.as_slice(), '=') {
            None => {
                assert(attr_pairs(rem@) =~= Seq::<(Seq<char>, Seq<char>)>::empty());
                assert(pairs_view(out@) + attr_pairs(rem@) =~= pairs_view(out@));
                return out;
            },
            Some(eq) => {
                let key_raw = subvec(rem.as_slice(), 0, eq);
                assert(key_raw@ =~= rem@.take(eq as int));
                let key_trim = trim_chars(key_raw.as_slice());
                let key_text = string_of(key_trim.as_slice());
                let key_upper = to_uppercase_str(key_text.as_str());
                let key = chars_of(key_upper.as_str());
                let after = subvec(rem.as_slice(), eq + 1, rem.len());
                assert(after@ =~= rem@.skip(eq + 1));
                let (value, rest) = split_attr_value(after.as_slice());
                proof {
                    lemma_attr_value_shrinks(after@);
                    lemma_ws_bounds(rest@);
                }
                let ghost before = out@;
                out.push((key, value));
                assert(pairs_view(out@) =~= pairs_view(before).push((key@, value@)));
                let next = trim_start_chars(rest.as_slice());
                assert(attr_pairs(rem@) == seq![(key@, value@)] + attr_pairs(next@));
                assert(pairs_view(before) + (seq![(key@, value@)] + attr_pairs(next@))
                    =~= pairs_view(out@) + attr_pairs(next@));
                rem = next;
            },
        }
    }
    assert(attr_pairs(rem@) =~= Seq::<(Seq<char>, Seq<char>)>::empty());
    assert(pairs_view(out@) + attr_pairs(rem@) =~= pairs_view(out@));
    out
}

/// The value bound to `key` (see [`attr_lookup`]).
fn lookup_attr(pairs: &Vec<(Vec<char>, Vec<char>)>, key: &[char]) -> (r: Option<Vec<char>>)
    ensures
        match r {
            Some(v) => attr_lookup(pairs_view(pairs@), key@) == Some(v@),
            None => attr_lookup(pairs_view(pairs@), key@) is None,
        },
{
    let ghost pv = pairs_view(pairs@);
    let mut i = pairs.len();
    assert(pv.take(i as int) =~= pv);
    while i > 0
        invariant
            i <= pairs@.len(),
            pv == pairs_view(pairs@),
            attr_lookup(pv, key@) == attr_lookup(pv.take(i as int), key@),
        decreases i,
    {
        let ghost t = pv.take(i as int);
        assert(t.last() == (pairs@[i - 1].0@, pairs@[i - 1].1@));
        assert(t.drop_last() =~= pv.take(i - 1));
        let k = &pairs[i - 1].0;
        if chars_eq(k.as_slice(), key) {
            let v = &pairs[i - 1].1;
            return Some(subvec(v.as_slice(), 0, v.len()));
        }
        i = i - 1;
    }
    assert(pv.take(0) =~= Seq::<(Seq<char>, Seq<char>)>::empty());
    None
}

/// A parsed attribute list, such as `METHOD=AES-128,URI="...",IV=0x...`:
/// its `(KEY, value)` pairs, each key once, in the order keys first appear.
pub struct AttributeList {
    pub pairs: Vec<(String, String)>,
}

impl View for AttributeList {
    type V = Seq<(Seq<char>, Seq<char>)>;

    open spec fn view(&self) -> Seq<(Seq<char>, Seq<char>)> {
        self.pairs@.map_values(|p: (String, String)| (p.0@, p.1@))
    }
}

impl AttributeList {
    /// The value bound to `key`, if any.
    pub fn get(&self, key: &str) -> (r: Option<String>)
        ensures
            match r {
                Some(v) => attr_lookup(self@, key@) == Some(v@),
                None => attr_lookup(self@, key@) is None,
            },
    {
        let k = chars_of(key);
        let ghost pv = self@;
        let mut i = self.pairs.len();
        assert(pv.take(i as int) =~= pv);
        while i > 0
            invariant
                i <= self.pairs@.len(),
                pv == self@,
                pv.len() == self.pairs@.len(),
                k@ == key@,
                attr_lookup(pv, key@) == attr_lookup(pv.take(i as int), key@),
            decreases i,
        {
            let ghost t = pv.take(i as int);
            let entry = &self.pairs[i - 1];
            assert(pv[i - 1] == (entry.0@, entry.1@));
            assert(t.last() == pv[i - 1]);
            assert(t.drop_last() =~= pv.take(i - 1));
            let c = chars_of(entry.0.as_str());
            if chars_eq(c.as_slice(), k.as_slice()) {
                let out = entry.1.clone();
                assert(out@ == entry.1@);
                return Some(out);
            }
            i = i - 1;
        }
        assert(self@.take(0) =~= Seq::<(Seq<char>, Seq<char>)>::empty());
        None
    }
}

/// Binds `key` to `val` in `pairs`, whose keys are distinct (see [`bind_attr`]).
fn bind_attr_exec(pairs: &mut Vec<(String, String)>, key: String, val: String)
    requires
        keys_distinct(old(pairs)@.map_values(|p: (String, String)| (p.0@, p.1@))),
    ensures
        final(pairs)@.map_values(|p: (String, String)| (p.0@, p.1@)) == bind_attr(
            old(pairs)@.map_values(|p: (String, String)| (p.0@, p.1@)),
            key@,
            val@,
        ),
{
    let ghost m = pairs@.map_values(|p: (String, String)| (p.0@, p.1@));
    let k = chars_of(key.as_str());
    let mut j: usize = 0;
    while j < pairs.len()
        invariant
            j <= pairs@.len(),
            m == pairs@.map_values(|p: (String, String)| (p.0@, p.1@)),
            m == old(pairs)@.map_values(|p: (String, String)| (p.0@, p.1@)),
            m.len() == pairs@.len(),
            k@ == key@,
            keys_distinct(m),
            forall|i: int| 0 <= i < j ==> (#[trigger] m[i]).0 != key@,
        decreases pairs.len() - j,
    {
        let c = chars_of(pairs[j].0.as_str());
        assert(m[j as int] == (pairs@[j as int].0@, pairs@[j as int].1@));
        if chars_eq(c.as_slice(), k.as_slice()) {
            assert(m[j as int].0 == key@);
            assert(has_key(m, key@));
            proof {
                lemma_bind_attr_at(m, key@, j as int);
            }
            let ghost kv = (key@, val@);
            assert(bind_attr(m, key@, val@) == m.update(j as int, kv));
            pairs.set(j, (key, val));
            assert(pairs@.map_values(|p: (String, String)| (p.0@, p.1@)) =~= m.update(j as int, kv));
            return;
        }
        j = j + 1;
    }
    assert(!has_key(m, key@));
    pairs.push((key, val));
    assert(pairs@.map_values(|p: (String, String)| (p.0@, p.1@)) =~= m.push((key@, val@)));
}

/// Parses an m3u8 attribute list. Keys are trimmed and upper-cased; a value
/// in double quotes may contain commas; an unterminated quote takes the rest.
/// As in a map, each key occurs once, bound to the last value given for it.
pub fn parse_attributes(input: &str) -> (r: AttributeList)
    ensures
        r@ == attr_map(parse_attributes_spec(input@)),
        keys_distinct(r@),
        forall|k: Seq<char>| #[trigger] attr_lookup(r@, k) == attr_lookup(parse_attributes_spec(input@), k),
{
    let v = chars_of(input);
    let t = trim_chars(v.as_slice());
    let raw = attr_pairs_exec(t.as_slice());
    let ghost all = pairs_view(raw@);
    let mut pairs: Vec<(String, String)> = Vec::new();
    let mut i: usize = 0;
    assert(pairs@.map_values(|p: (String, String)| (p.0@, p.1@)) =~= attr_map(all.take(0)));
    while i < raw.len()
        invariant
            i <= raw@.len(),
            all == pairs_view(raw@),
            pairs@.map_values(|p: (String, String)| (p.0@, p.1@)) == attr_map(all.take(i as int)),
        decreases raw.len() - i,
    {
        proof {
            law_attr_map_keeps_last_values(all.take(i as int));
        }
        let k = string_of(raw[i].0.as_slice());
        let val = string_of(raw[i].1.as_slice());
        bind_attr_exec(&mut pairs, k, val);
        assert(all.take(i + 1).drop_last() =~= all.take(i as int));
        assert(all.take(i + 1).last() == (raw@[i as int].0@, raw@[i as int].1@));
        i = i + 1;
    }
    assert(all.take(i as int) =~= all);
    proof {
        law_attr_map_keeps_last_values(all);
    }
    AttributeList { pairs }
}

} // verus!

verus! {

fn parse_failure(msg: &str) -> (r: HlsError)
    ensures
        r@ == SpecHlsError::Parse(msg@),
{
    HlsError::Parse(String::from_str(msg))
}

fn parse_error(prefix: &str, detail: &str) -> (r: HlsError)
    ensures
        r@ == SpecHlsError::Parse(prefix@ + detail@),
{
    HlsError::Parse(concat_str(prefix, detail))
}

/// How the parser resolves the URI of a line (see [`UriResolution`]):
/// against the playlist URL, or with a given outcome.
pub enum Resolution {
    Against(String),
    Given(Result<String, String>),
}

impl View for Resolution {
    type V = UriResolution;

    open spec fn view(&self) -> UriResolution {
        match self {
            Resolution::Against(b) => UriResolution::Against(b@),
            Resolution::Given(Ok(u)) => UriResolution::Given(Ok(u@)),
            Resolution::Given(Err(e)) => UriResolution::Given(Err(e@)),
        }
    }
}

/// Resolves a URI found in the playlist (see [`resolve_uri`]).
fn resolve_url(res: &Resolution, uri: &[char]) -> (r: Result<String, HlsError>)
    ensures
        match resolve_uri(res@, uri@) {
            Ok(u) => r matches Ok(x) && x@ == u,
            Err(e) => r matches Err(x) && x@ == e,
        },
{
    let http = chars_of("http://");
    let https = chars_of("https://");
    let uri_s = string_of(uri);
    if starts_with(uri, http.as_slice()) || starts_with(uri, https.as_slice()) {
        Ok(uri_s)
    } else {
        let joined: Result<String, String> = match res {
            Resolution::Against(b) => join_url(b.as_str(), uri_s.as_str()),
            Resolution::Given(Ok(u)) => Ok(u.clone()),
            Resolution::Given(Err(e)) => Err(e.clone()),
        };
        match joined {
            Ok(u) => Ok(u),
            Err(e) => {
                let a = concat_str("cannot resolve URL '", uri_s.as_str());
                let b = a.concat("': ");
                let c = b.concat(e.as_str());
                Err(HlsError::Parse(c))
            },
        }
    }
}

/// Parses `LENGTH[@OFFSET]` (see [`byte_range_spec`]).
fn parse_byte_range(s: &[char], default_offset: u64) -> (r: Result<ByteRange, HlsError>)
    ensures
        match byte_range_spec(s@, default_offset) {
            Ok(b) => r == Ok::<ByteRange, HlsError>(b),
            Err(e) => r matches Err(x) && x@ == e,
        },
{
    let t = trim_chars(s);
    let (length_text, offset) = match find_char(t.as_slice(), '@') {
        Some(at) => {
            assert(at < t.len());
            let l = subvec(t.as_slice(), 0, at);
            let o = subvec(t.as_slice(), at + 1, t.len());
            assert(l@ =~= t@.take(at as int));
            assert(o@ =~= t@.skip(at + 1));
            (l, parse_u64(o.as_slice()))
        },
        None => {
            let l = subvec(t.as_slice(), 0, t.len());
            assert(l@ =~= t@);
            (l, Ok(default_offset))
        },
    };
    match offset {
        Err(e) => Err(parse_error("bad byte range offset: ", int_error_message(e).as_str())),
        Ok(o) => match parse_u64(length_text.as_slice()) {
            Err(e) => Err(parse_error("bad byte range length: ", int_error_message(e).as_str())),
            Ok(l) => Ok(ByteRange { length: l, offset: o }),
        },
    }
}

/// Parses an `IV` attribute into sixteen bytes (see [`iv_spec`]).
fn parse_iv(s: &[char]) -> (r: Result<[u8; 16], HlsError>)
    ensures
        match iv_spec(s@) {
            Ok(b) => r matches Ok(x) && x@ == b,
            Err(e) => r matches Err(x) && x@ == e,
        },
{
    let p1 = chars_of("0x");
    let p2 = chars_of("0X");
    proof {
        reveal_strlit("0x");
        reveal_strlit("0X");
    }
    let digits = if starts_with(s, p1.as_slice()) || starts_with(s, p2.as_slice()) {
        let d = subvec(s, 2, s.len());
        assert(d@ =~= s@.skip(2));
        d
    } else {
        let d = subvec(s, 0, s.len());
        assert(d@ =~= s@);
        d
    };
    let text = string_of(digits.as_slice());
    match decode_hex(text.as_str()) {
        Err(e) => Err(parse_error("bad IV hex: ", e.as_str())),
        Ok(bytes) => {
            if bytes.len() != 16 {
                let n = decimal_string(bytes.len() as u64);
                return Err(parse_error("IV must be 16 bytes, got ", n.as_str()));
            }
            let mut iv = [0u8; 16];
            let mut i: usize = 0;
            while i < 16
                invariant
                    bytes@.len() == 16,
                    i <= 16,
                    forall|j: int| 0 <= j < i ==> iv@[j] == bytes@[j],
                decreases 16 - i,
            {
                iv[i] = bytes[i];
                i = i + 1;
            }
            assert(iv@ =~= bytes@);
            Ok(iv)
        },
    }
}

/// Parses the attributes of an `EXT-X-KEY` tag (see [`key_spec`]).
fn parse_key(attrs_text: &[char], res: &Resolution) -> (r: Result<EncryptionState, HlsError>)
    ensures
        match key_spec_by(attrs_text@, res@) {
            Ok(k) => r matches Ok(x) && x@ == k,
            Err(e) => r matches Err(x) && x@ == e,
        },
{
    let t = trim_chars(attrs_text);
    let attrs = attr_pairs_exec(t.as_slice());
    let method_key = chars_of("METHOD");
    let uri_key = chars_of("URI");
    let iv_key = chars_of("IV");
    let none_lit = chars_of("NONE");
    let aes_lit = chars_of("AES-128");
    match lookup_attr(&attrs, method_key.as_slice()) {
        None => Err(parse_failure("EXT-X-KEY missing METHOD")),
        Some(method) => {
            if chars_eq(method.as_slice(), none_lit.as_slice()) {
                Ok(EncryptionState::Unencrypted)
            } else if chars_eq(method.as_slice(), aes_lit.as_slice()) {
                match lookup_attr(&attrs, uri_key.as_slice()) {
                    None => Err(parse_failure("AES-128 key missing URI")),
                    Some(uri) => {
                        let key_url = resolve_url(res, uri.as_slice())?;
                        match lookup_attr(&attrs, iv_key.as_slice()) {
                            None => Ok(EncryptionState::Aes128 { key_url, iv: None }),
                            Some(iv_text) => {
                                let iv = parse_iv(iv_text.as_slice())?;
                                Ok(EncryptionState::Aes128 { key_url, iv: Some(iv) })
                            },
                        }
                    },
                }
            } else {
                Err(HlsError::UnsupportedEncryption(string_of(method.as_slice())))
            }
        },
    }
}

/// Parses the attributes of an `EXT-X-MAP` tag (see [`map_spec`]).
fn parse_map(attrs_text: &[char], res: &Resolution) -> (r: Result<InitSegment, HlsError>)
    ensures
        match map_spec_by(attrs_text@, res@) {
            Ok(m) => r matches Ok(x) && x@ == m,
            Err(e) => r matches Err(x) && x@ == e,
        },
{
    let t = trim_chars(attrs_text);
    let attrs = attr_pairs_exec(t.as_slice());
    let uri_key = chars_of("URI");
    let br_key = chars_of("BYTERANGE");
    match lookup_attr(&attrs, uri_key.as_slice()) {
        None => Err(parse_failure("EXT-X-MAP missing URI")),
        Some(uri) => {
            let url = resolve_url(res, uri.as_slice())?;
            match lookup_attr(&attrs, br_key.as_slice()) {
                None => Ok(InitSegment { url, byte_range: None }),
                Some(br_text) => {
                    let br = parse_byte_range(br_text.as_slice(), 0)?;
                    Ok(
                        InitSegment {
                            url,
                            byte_range: Some(InitByteRange { length: br.length, offset: br.offset }),
                        },
                    )
                },
            }
        },
    }
}

/// Reads the duration of an `EXTINF` tag (see [`extinf_spec`]).
fn parse_extinf(rest: &[char]) -> (r: Result<String, HlsError>)
    ensures
        match extinf_spec(rest@) {
            Ok(d) => r matches Ok(x) && x@ == d,
            Err(e) => r matches Err(x) && x@ == e,
        },
{
    let end = match find_char(rest, ',') {
        Some(c) => c,
        None => rest.len(),
    };
    let field = subvec(rest, 0, end);
    assert(field@ =~= rest@.take(first_index(rest@, ',')));
    let d = trim_chars(field.as_slice());
    if is_float_literal(d.as_slice()) {
        Ok(string_of(d.as_slice()))
    } else if d.len() == 0 {
        Err(parse_failure("bad EXTINF duration: cannot parse float from empty string"))
    } else {
        Err(parse_failure("bad EXTINF duration: invalid float literal"))
    }
}

} // verus!

verus! {

// ---------------------------------------------------------------------------
// The playlist as a whole
// ---------------------------------------------------------------------------

/// What the parser knows after reading some lines: the playlist fields so
/// far, and the tag state that applies to the next segment.
pub struct ParseState {
    pub target_duration: Option<u64>,
    pub media_sequence: u64,
    pub end_list: bool,
    pub segments: Seq<SpecSegment>,
    pub encryption: SpecEncryption,
    pub init_segment: Option<SpecInitSegment>,
    pub duration: Option<Seq<char>>,
    pub byte_range: Option<ByteRange>,
    pub discontinuity: bool,
    /// Where an `EXT-X-BYTERANGE` without `@offset` starts: just past the
    /// previous segment's range, or zero after a discontinuity.
    pub next_offset: u64,
}

pub open spec fn initial_state() -> ParseState {
    ParseState {
        target_duration: None,
        media_sequence: 0,
        end_list: false,
        segments: seq![],
        encryption: SpecEncryption::Unencrypted,
        init_segment: None,
        duration: None,
        byte_range: None,
        discontinuity: false,
        next_offset: 0,
    }
}

/// The segment a URI line yields, and the state after it.
pub open spec fn segment_step(st: ParseState, url: Seq<char>) -> ParseState {
    let seg = SpecSegment {
        duration: st.duration,
        url,
        byte_range: st.byte_range,
        encryption: st.encryption,
        init_segment: st.init_segment,
        discontinuity: st.discontinuity,
    };
    ParseState {
        segments: st.segments.push(seg),
        duration: None,
        byte_range: None,
        discontinuity: false,
        next_offset: match st.byte_range {
            Some(br) => br.offset.wrapping_add(br.length),
            None => st.next_offset,
        },
        ..st
    }
}

/// The effect of one line (after the header) on the parser state, for a
/// playlist fetched from `base`.
pub open spec fn line_step(base: Seq<char>, st: ParseState, raw: Seq<char>) -> Result<ParseState, SpecHlsError> {
    line_step_by(UriResolution::Against(base), st, raw)
}

/// The effect of one line (after the header) on the parser state, the URI
/// it holds (if any) resolved by `res`.
pub open spec fn line_step_by(res: UriResolution, st: ParseState, raw: Seq<char>) -> Result<ParseState, SpecHlsError> {
    let line = trim(raw);
    let td = "#EXT-X-TARGETDURATION:"@;
    let ms = "#EXT-X-MEDIA-SEQUENCE:"@;
    let key = "#EXT-X-KEY:"@;
    let map = "#EXT-X-MAP:"@;
    let inf = "#EXTINF:"@;
    let br = "#EXT-X-BYTERANGE:"@;
    if line.len() == 0 {
        Ok(st)
    } else if has_prefix(line, td) {
        match parse_u64_spec(trim(line.skip(td.len() as int))) {
            Ok(v) => Ok(ParseState { target_duration: Some(v), ..st }),
            Err(e) => Err(SpecHlsError::Parse("bad TARGETDURATION: "@ + int_error_text(e))),
        }
    } else if has_prefix(line, ms) {
        match parse_u64_spec(trim(line.skip(ms.len() as int))) {
            Ok(v) => Ok(ParseState { media_sequence: v, ..st }),
            Err(e) => Err(SpecHlsError::Parse("bad MEDIA-SEQUENCE: "@ + int_error_text(e))),
        }
    } else if line == "#EXT-X-ENDLIST"@ {
        Ok(ParseState { end_list: true, ..st })
    } else if has_prefix(line, key) {
        match key_spec_by(line.skip(key.len() as int), res) {
            Ok(k) => Ok(ParseState { encryption: k, ..st }),
            Err(e) => Err(e),
        }
    } else if has_prefix(line, map) {
        match map_spec_by(line.skip(map.len() as int), res) {
            Ok(m) => Ok(ParseState { init_segment: Some(m), ..st }),
            Err(e) => Err(e),
        }
    } else if has_prefix(line, inf) {
        match extinf_spec(line.skip(inf.len() as int)) {
            Ok(d) => Ok(ParseState { duration: Some(d), ..st }),
            Err(e) => Err(e),
        }
    } else if has_prefix(line, br) {
        match byte_range_spec(line.skip(br.len() as int), st.next_offset) {
            Ok(b) => Ok(ParseState { byte_range: Some(b), ..st }),
            Err(e) => Err(e),
        }
    } else if line == "#EXT-X-DISCONTINUITY"@ {
        Ok(ParseState { discontinuity: true, next_offset: 0, ..st })
    } else if line[0] == '#' {
        Ok(st)
    } else {
        match resolve_uri(res, line) {
            Ok(url) => Ok(segment_step(st, url)),
            Err(e) => Err(e),
        }
    }
}

/// Feeds the lines `ls` to the parser, stopping at the first error.
pub open spec fn run_lines(base: Seq<char>, st: ParseState, ls: Seq<Seq<char>>) -> Result<ParseState, SpecHlsError>
    decreases ls.len(),
{
    if ls.len() == 0 {
        Ok(st)
    } else {
        match line_step(base, st, ls[0]) {
            Ok(next) => run_lines(base, next, ls.drop_first()),
            Err(e) => Err(e),
        }
    }
}

/// The playlist that `body`, fetched from `base`, describes: its first line
/// must be `#EXTM3U`, and the other lines are read in order.
pub open spec fn parse_playlist_spec(base: Seq<char>, body: Seq<char>) -> Result<SpecPlaylist, SpecHlsError> {
    let ls = lines_of(body);
    if ls.len() == 0 || trim(ls[0]) != "#EXTM3U"@ {
        Err(SpecHlsError::Parse("missing #EXTM3U header"@))
    } else {
        match run_lines(base, initial_state(), ls.drop_first()) {
            Ok(st) => Ok(
                SpecPlaylist {
                    target_duration: st.target_duration,
                    media_sequence: st.media_sequence,
                    segments: st.segments,
                    end_list: st.end_list,
                },
            ),
            Err(e) => Err(e),
        }
    }
}

} // verus!

verus! {

/// A playlist parser part way through a playlist: what the lines read so
/// far have set (see [`ParseState`]).
pub struct PlaylistParser {
    target_duration: Option<u64>,
    media_sequence: u64,
    end_list: bool,
    segments: Vec<Segment>,
    encryption: EncryptionState,
    init_segment: Option<InitSegment>,
    duration: Option<String>,
    byte_range: Option<ByteRange>,
    discontinuity: bool,
    next_offset: u64,
}

spec fn state_of(s: PlaylistParser) -> ParseState {
    ParseState {
        target_duration: s.target_duration,
        media_sequence: s.media_sequence,
        end_list: s.end_list,
        segments: segments_view(s.segments@),
        encryption: s.encryption@,
        init_segment: match s.init_segment {
            Some(i) => Some(i@),
            None => None,
        },
        duration: match s.duration {
            Some(d) => Some(d@),
            None => None,
        },
        byte_range: s.byte_range,
        discontinuity: s.discontinuity,
        next_offset: s.next_offset,
    }
}

impl View for PlaylistParser {
    type V = ParseState;

    closed spec fn view(&self) -> ParseState {
        state_of(*self)
    }
}

/// The playlist that the parser state `st` stands for.
pub open spec fn playlist_of(st: ParseState) -> SpecPlaylist {
    SpecPlaylist {
        target_duration: st.target_duration,
        media_sequence: st.media_sequence,
        segments: st.segments,
        end_list: st.end_list,
    }
}

impl PlaylistParser {
    /// A parser that has read only the `#EXTM3U` header.
    pub fn new() -> (r: Self)
        ensures
            r@ == initial_state(),
    {
        let r = PlaylistParser {
            target_duration: None,
            media_sequence: 0,
            end_list: false,
            segments: Vec::new(),
            encryption: EncryptionState::Unencrypted,
            init_segment: None,
            duration: None,
            byte_range: None,
            discontinuity: false,
            next_offset: 0,
        };
        assert(segments_view(r.segments@) =~= Seq::<SpecSegment>::empty());
        r
    }

    /// Reads one playlist line (see [`line_step_by`]). A URI on the line that
    /// is not an absolute `http(s)` URL is resolved by `resolution`: against
    /// the playlist URL, or with the outcome the caller gives, which is then
    /// taken as the URI's resolved URL (or the text of its error).
    pub fn read_line(&mut self, raw: &str, resolution: &Resolution) -> (r: Result<(), HlsError>)
        ensures
            match line_step_by(resolution@, old(self)@, raw@) {
                Ok(next) => r is Ok && final(self)@ == next,
                Err(e) => r matches Err(x) && x@ == e,
            },
    {
        let v = chars_of(raw);
        apply_line(self, resolution, v.as_slice())
    }

    /// The playlist read so far.
    pub fn finish(self) -> (r: Playlist)
        ensures
            r@ == playlist_of(self@),
    {
        Playlist {
            target_duration: self.target_duration,
            media_sequence: self.media_sequence,
            segments: self.segments,
            end_list: self.end_list,
        }
    }
}

fn tag_value(line: &[char], tag: &[char]) -> (r: Vec<char>)
    requires
        has_prefix(line@, tag@),
    ensures
        r@ == line@.skip(tag@.len() as int),
{
    let v = subvec(line, tag.len(), line.len());
    assert(v@ =~= line@.skip(tag@.len() as int));
    v
}

fn push_segment(st: &mut PlaylistParser, url: String)
    ensures
        state_of(*final(st)) == segment_step(state_of(*old(st)), url@),
{
    let init = match &st.init_segment {
        Some(i) => Some(i.duplicate()),
        None => None,
    };
    let duration = st.duration.take();
    let seg = Segment {
        duration,
        url,
        byte_range: st.byte_range,
        encryption: st.encryption.duplicate(),
        init_segment: init,
        discontinuity: st.discontinuity,
    };
    if let Some(br) = st.byte_range {
        st.next_offset = br.offset.wrapping_add(br.length);
    }
    let ghost before = st.segments@;
    st.segments.push(seg);
    assert(segments_view(st.segments@) =~= segments_view(before).push(seg@));
    st.byte_range = None;
    st.discontinuity = false;
}

/// Applies one playlist line to the parser state (see [`line_step`]).
fn apply_line(st: &mut PlaylistParser, res: &Resolution, raw: &[char]) -> (r: Result<(), HlsError>)
    ensures
        match line_step_by(res@, state_of(*old(st)), raw@) {
            Ok(next) => r is Ok && state_of(*final(st)) == next,
            Err(e) => r matches Err(x) && x@ == e,
        },
{
    let line = trim_chars(raw);
    let td = chars_of("#EXT-X-TARGETDURATION:");
    let ms = chars_of("#EXT-X-MEDIA-SEQUENCE:");
    let endlist = chars_of("#EXT-X-ENDLIST");
    let key = chars_of("#EXT-X-KEY:");
    let map = chars_of("#EXT-X-MAP:");
    let inf = chars_of("#EXTINF:");
    let br = chars_of("#EXT-X-BYTERANGE:");
    let disc = chars_of("#EXT-X-DISCONTINUITY");
    if line.len() == 0 {
        Ok(())
    } else if starts_with(line.as_slice(), td.as_slice()) {
        let v = trim_chars(tag_value(line.as_slice(), td.as_slice()).as_slice());
        match parse_u64(v.as_slice()) {
            Ok(x) => {
                st.target_duration = Some(x);
                Ok(())
            },
            Err(e) => Err(parse_error("bad TARGETDURATION: ", int_error_message(e).as_str())),
        }
    } else if starts_with(line.as_slice(), ms.as_slice()) {
        let v = trim_chars(tag_value(line.as_slice(), ms.as_slice()).as_slice());
        match parse_u64(v.as_slice()) {
            Ok(x) => {
                st.media_sequence = x;
                Ok(())
            },
            Err(e) => Err(parse_error("bad MEDIA-SEQUENCE: ", int_error_message(e).as_str())),
        }
    } else if chars_eq(line.as_slice(), endlist.as_slice()) {
        st.end_list = true;
        Ok(())
    } else if starts_with(line.as_slice(), key.as_slice()) {
        let v = tag_value(line.as_slice(), key.as_slice());
        let k = parse_key(v.as_slice(), res)?;
        st.encryption = k;
        Ok(())
    } else if starts_with(line.as_slice(), map.as_slice()) {
        let v = tag_value(line.as_slice(), map.as_slice());
        let m = parse_map(v.as_slice(), res)?;
        st.init_segment = Some(m);
        Ok(())
    } else if starts_with(line.as_slice(), inf.as_slice()) {
        let v = tag_value(line.as_slice(), inf.as_slice());
        let d = parse_extinf(v.as_slice())?;
        st.duration = Some(d);
        Ok(())
    } else if starts_with(line.as_slice(), br.as_slice()) {
        let v = tag_value(line.as_slice(), br.as_slice());
        let b = parse_byte_range(v.as_slice(), st.next_offset)?;
        st.byte_range = Some(b);
        Ok(())
    } else if chars_eq(line.as_slice(), disc.as_slice()) {
        st.discontinuity = true;
        st.next_offset = 0;
        Ok(())
    } else if line[0] == '#' {
        Ok(())
    } else {
        let url = resolve_url(res, line.as_slice())?;
        push_segment(st, url);
        Ok(())
    }
}

/// Parses an m3u8 media playlist fetched from `base_url` (relative URIs are
/// resolved against it). The first line must be `#EXTM3U`; tags set the
/// state that each following URI line turns into a [`Segment`].
pub fn parse_playlist(base_url: &str, body: &str) -> (r: Result<Playlist, HlsError>)
    ensures
        match parse_playlist_spec(base_url@, body@) {
            Ok(p) => r matches Ok(x) && x@ == p,
            Err(e) => r matches Err(x) && x@ == e,
        },
{
    let chars = chars_of(body);
    let lines = split_lines(chars.as_slice());
    let ghost ls = views_of(lines@);
    let header = chars_of("#EXTM3U");
    if lines.len() == 0 {
        return Err(parse_failure("missing #EXTM3U header"));
    }
    assert(ls[0] == lines@[0]@);
    let first = trim_chars(lines[0].as_slice());
    if !chars_eq(first.as_slice(), header.as_slice()) {
        return Err(parse_failure("missing #EXTM3U header"));
    }
    let res = Resolution::Against(String::from_str(base_url));
    assert(res@ == UriResolution::Against(base_url@));
    let mut st = PlaylistParser {
        target_duration: None,
        media_sequence: 0,
        end_list: false,
        segments: Vec::new(),
        encryption: EncryptionState::Unencrypted,
        init_segment: None,
        duration: None,
        byte_range: None,
        discontinuity: false,
        next_offset: 0,
    };
    assert(segments_view(st.segments@) =~= Seq::<SpecSegment>::empty());
    assert(state_of(st) == initial_state());
    let mut i: usize = 1;
    assert(ls.skip(1) =~= ls.drop_first());
    while i < lines.len()
        invariant
            1 <= i <= lines@.len(),
            res@ == UriResolution::Against(base_url@),
            ls == views_of(lines@),
            ls == lines_of(body@),
            ls.len() > 0,
            trim(ls[0]) == "#EXTM3U"@,
            run_lines(base_url@, initial_state(), ls.drop_first()) == run_lines(
                base_url@,
                state_of(st),
                ls.skip(i as int),
            ),
        decreases lines.len() - i,
    {
        assert(ls.skip(i as int)[0] == lines@[i as int]@);
        assert(ls.skip(i as int).drop_first() =~= ls.skip(i + 1));
        let ghost pre = state_of(st);
        assert(run_lines(base_url@, pre, ls.skip(i as int)) == match line_step(
            base_url@,
            pre,
            ls.skip(i as int)[0],
        ) {
            Ok(next) => run_lines(base_url@, next, ls.skip(i as int).drop_first()),
            Err(e) => Err(e),
        });
        match apply_line(&mut st, &res, lines[i].as_slice()) {
            Ok(()) => {},
            Err(e) => {
                return Err(e);
            },
        }
        i = i + 1;
    }
    assert(ls.skip(i as int) =~= Seq::<Seq<char>>::empty());
    Ok(
        Playlist {
            target_duration: st.target_duration,
            media_sequence: st.media_sequence,
            segments: st.segments,
            end_list: st.end_list,
        },
    )
}

} // verus!
