//! Properties of playlist parsing that hold for every input.

use vstd::prelude::*;

use super::error::SpecHlsError;
use super::parse::{
    attr_lookup, key_spec, line_step, parse_attributes_spec, parse_playlist_spec, resolve_url_spec, run_lines,
    segment_step, ParseState,
};
use super::types::{ByteRange, SpecEncryption, SpecPlaylist};
use crate::text::{first_index, has_prefix, lines_of, parse_u64_spec, trim};

verus! {

/// A line that yields a segment: after trimming, it is not empty and does
/// not start with `#` (tags and comments do).
pub open spec fn is_uri_line(raw: Seq<char>) -> bool {
    trim(raw).len() > 0 && trim(raw)[0] != '#'
}

/// How many of the lines yield a segment.
pub open spec fn uri_line_count(ls: Seq<Seq<char>>) -> nat
    decreases ls.len(),
{
    if ls.len() == 0 {
        0
    } else {
        (if is_uri_line(ls[0]) {
            1nat
        } else {
            0nat
        }) + uri_line_count(ls.drop_first())
    }
}

proof fn lemma_tag_starts_with_hash(line: Seq<char>, tag: Seq<char>)
    requires
        tag.len() > 0,
        tag[0] == '#',
        has_prefix(line, tag),
    ensures
        line.len() > 0 && line[0] == '#',
{
    assert(line.take(tag.len() as int)[0] == line[0]);
}

/// One line adds a segment exactly when it is a URI line, and keeps the
/// segments before it.
proof fn lemma_line_step_segments(base: Seq<char>, st: ParseState, raw: Seq<char>)
    ensures
        line_step(base, st, raw) matches Ok(n) ==> {
            &&& n.segments.len() == st.segments.len() + if is_uri_line(raw) {
                1nat
            } else {
                0nat
            }
            &&& n.segments.take(st.segments.len() as int) == st.segments
        },
{
    reveal_strlit("#EXT-X-TARGETDURATION:");
    reveal_strlit("#EXT-X-MEDIA-SEQUENCE:");
    reveal_strlit("#EXT-X-ENDLIST");
    reveal_strlit("#EXT-X-KEY:");
    reveal_strlit("#EXT-X-MAP:");
    reveal_strlit("#EXTINF:");
    reveal_strlit("#EXT-X-BYTERANGE:");
    reveal_strlit("#EXT-X-DISCONTINUITY");
    let line = trim(raw);
    if is_uri_line(raw) {
        if has_prefix(line, "#EXT-X-TARGETDURATION:"@) {
            lemma_tag_starts_with_hash(line, "#EXT-X-TARGETDURATION:"@);
        }
        if has_prefix(line, "#EXT-X-MEDIA-SEQUENCE:"@) {
            lemma_tag_starts_with_hash(line, "#EXT-X-MEDIA-SEQUENCE:"@);
        }
        if has_prefix(line, "#EXT-X-KEY:"@) {
            lemma_tag_starts_with_hash(line, "#EXT-X-KEY:"@);
        }
        if has_prefix(line, "#EXT-X-MAP:"@) {
            lemma_tag_starts_with_hash(line, "#EXT-X-MAP:"@);
        }
        if has_prefix(line, "#EXTINF:"@) {
            lemma_tag_starts_with_hash(line, "#EXTINF:"@);
        }
        if has_prefix(line, "#EXT-X-BYTERANGE:"@) {
            lemma_tag_starts_with_hash(line, "#EXT-X-BYTERANGE:"@);
        }
        assert(line != "#EXT-X-ENDLIST"@ && line != "#EXT-X-DISCONTINUITY"@) by {
            assert("#EXT-X-ENDLIST"@[0] == '#');
            assert("#EXT-X-DISCONTINUITY"@[0] == '#');
        }
    }
    if let Ok(n) = line_step(base, st, raw) {
        assert(n.segments.take(st.segments.len() as int) =~= st.segments);
    }
}

proof fn lemma_run_lines_segments(base: Seq<char>, st: ParseState, ls: Seq<Seq<char>>)
    ensures
        run_lines(base, st, ls) matches Ok(n) ==> n.segments.len() == st.segments.len() + uri_line_count(ls),
    decreases ls.len(),
{
    if ls.len() > 0 {
        lemma_line_step_segments(base, st, ls[0]);
        if let Ok(next) = line_step(base, st, ls[0]) {
            lemma_run_lines_segments(base, next, ls.drop_first());
        }
    }
}

/// A playlist whose first line is not `#EXTM3U` is refused.
pub proof fn law_header_required(base: Seq<char>, body: Seq<char>)
    requires
        lines_of(body).len() == 0 || trim(lines_of(body)[0]) != "#EXTM3U"@,
    ensures
        parse_playlist_spec(base, body) == Err::<SpecPlaylist, SpecHlsError>(
            SpecHlsError::Parse("missing #EXTM3U header"@),
        ),
{
}

/// A parsed playlist has one segment per URI line after the header, in the
/// order of those lines.
pub proof fn law_segments_are_uri_lines(base: Seq<char>, body: Seq<char>)
    requires
        parse_playlist_spec(base, body) is Ok,
    ensures
        parse_playlist_spec(base, body)->Ok_0.segments.len() == uri_line_count(lines_of(body).drop_first()),
{
    lemma_run_lines_segments(base, super::parse::initial_state(), lines_of(body).drop_first());
}

/// A URI line adds one segment that carries the state in force (duration,
/// byte range, encryption, init segment, discontinuity), at the URI as
/// resolved against the playlist URL; an absolute `http(s)` URI is kept as
/// it is.
pub proof fn law_uri_line_yields_segment(base: Seq<char>, st: ParseState, raw: Seq<char>)
    requires
        is_uri_line(raw),
        resolve_url_spec(base, trim(raw)) is Ok,
    ensures
        line_step(base, st, raw) == Ok::<ParseState, SpecHlsError>(
            segment_step(st, resolve_url_spec(base, trim(raw))->Ok_0),
        ),
        (has_prefix(trim(raw), "http://"@) || has_prefix(trim(raw), "https://"@)) ==> resolve_url_spec(
            base,
            trim(raw),
        ) == Ok::<Seq<char>, SpecHlsError>(trim(raw)),
{
    lemma_line_step_segments(base, st, raw);
    reveal_strlit("#EXT-X-TARGETDURATION:");
    reveal_strlit("#EXT-X-MEDIA-SEQUENCE:");
    reveal_strlit("#EXT-X-ENDLIST");
    reveal_strlit("#EXT-X-KEY:");
    reveal_strlit("#EXT-X-MAP:");
    reveal_strlit("#EXTINF:");
    reveal_strlit("#EXT-X-BYTERANGE:");
    reveal_strlit("#EXT-X-DISCONTINUITY");
    let line = trim(raw);
    if has_prefix(line, "#EXT-X-TARGETDURATION:"@) {
        lemma_tag_starts_with_hash(line, "#EXT-X-TARGETDURATION:"@);
    }
    if has_prefix(line, "#EXT-X-MEDIA-SEQUENCE:"@) {
        lemma_tag_starts_with_hash(line, "#EXT-X-MEDIA-SEQUENCE:"@);
    }
    if has_prefix(line, "#EXT-X-KEY:"@) {
        lemma_tag_starts_with_hash(line, "#EXT-X-KEY:"@);
    }
    if has_prefix(line, "#EXT-X-MAP:"@) {
        lemma_tag_starts_with_hash(line, "#EXT-X-MAP:"@);
    }
    if has_prefix(line, "#EXTINF:"@) {
        lemma_tag_starts_with_hash(line, "#EXTINF:"@);
    }
    if has_prefix(line, "#EXT-X-BYTERANGE:"@) {
        lemma_tag_starts_with_hash(line, "#EXT-X-BYTERANGE:"@);
    }
    assert("#EXT-X-ENDLIST"@[0] == '#');
    assert("#EXT-X-DISCONTINUITY"@[0] == '#');
}

/// An `EXT-X-KEY` with `METHOD=NONE` turns encryption off for the segments
/// that follow, whatever was in force before.
pub proof fn law_method_none_clears_encryption(base: Seq<char>, attrs: Seq<char>)
    requires
        attr_lookup(parse_attributes_spec(attrs), "METHOD"@) == Some("NONE"@),
    ensures
        key_spec(attrs, base) == Ok::<SpecEncryption, SpecHlsError>(SpecEncryption::Unencrypted),
{
}

/// An `EXT-X-BYTERANGE` without `@offset` that follows a segment with a
/// byte range starts where that range ends.
pub proof fn law_implicit_byte_range_offset(
    base: Seq<char>,
    st: ParseState,
    url: Seq<char>,
    length_text: Seq<char>,
)
    requires
        st.byte_range matches Some(prev) && prev.offset + prev.length <= u64::MAX,
        trim("#EXT-X-BYTERANGE:"@ + length_text) == "#EXT-X-BYTERANGE:"@ + length_text,
        first_index(trim(length_text), '@') == trim(length_text).len(),
        parse_u64_spec(trim(length_text)) is Ok,
    ensures
        line_step(base, segment_step(st, url), "#EXT-X-BYTERANGE:"@ + length_text) matches Ok(next)
            && next.byte_range == Some(
            ByteRange {
                length: parse_u64_spec(trim(length_text))->Ok_0,
                offset: (st.byte_range->Some_0.offset + st.byte_range->Some_0.length) as u64,
            },
        ),
{
    reveal_strlit("#EXT-X-TARGETDURATION:");
    reveal_strlit("#EXT-X-MEDIA-SEQUENCE:");
    reveal_strlit("#EXT-X-ENDLIST");
    reveal_strlit("#EXT-X-KEY:");
    reveal_strlit("#EXT-X-MAP:");
    reveal_strlit("#EXTINF:");
    reveal_strlit("#EXT-X-BYTERANGE:");
    let prev = st.byte_range->Some_0;
    let st1 = segment_step(st, url);
    assert(st1.next_offset == prev.offset.wrapping_add(prev.length));
    assert(prev.offset.wrapping_add(prev.length) == prev.offset + prev.length);
    let tag = "#EXT-X-BYTERANGE:"@;
    let line = tag + length_text;
    assert(line.take(tag.len() as int) =~= tag);
    assert(line.skip(tag.len() as int) =~= length_text);
    assert(line[7] == tag[7] && line[4] == tag[4]);
    assert(line[7] == 'B' && line[4] == '-');
    assert(!has_prefix(line, "#EXT-X-TARGETDURATION:"@)) by {
        if has_prefix(line, "#EXT-X-TARGETDURATION:"@) {
            assert(line.take(22)[7] == line[7]);
        }
    }
    assert(!has_prefix(line, "#EXT-X-MEDIA-SEQUENCE:"@)) by {
        if has_prefix(line, "#EXT-X-MEDIA-SEQUENCE:"@) {
            assert(line.take(22)[7] == line[7]);
        }
    }
    assert(line != "#EXT-X-ENDLIST"@) by {
        if line == "#EXT-X-ENDLIST"@ {
            assert("#EXT-X-ENDLIST"@[7] == 'E');
        }
    }
    assert(!has_prefix(line, "#EXT-X-KEY:"@)) by {
        if has_prefix(line, "#EXT-X-KEY:"@) {
            assert(line.take(11)[7] == line[7]);
        }
    }
    assert(!has_prefix(line, "#EXT-X-MAP:"@)) by {
        if has_prefix(line, "#EXT-X-MAP:"@) {
            assert(line.take(11)[7] == line[7]);
        }
    }
    assert(!has_prefix(line, "#EXTINF:"@)) by {
        if has_prefix(line, "#EXTINF:"@) {
            assert(line.take(8)[4] == line[4]);
        }
    }
}

} // verus!

verus! {

use super::download::{
    init_filename_spec, key_seen, known_inits, pad5, segment_fetch_spec, segment_filename_spec, uses_key,
};
use super::types::{SpecInitSegment, SpecSegment};
use crate::text::{decimal, digit_char};

proof fn lemma_known_inits_contains(segs: Seq<SpecSegment>, i: int, x: SpecInitSegment)
    requires
        0 <= i <= segs.len(),
    ensures
        known_inits(segs.take(i)).contains(x) <==> exists|j: int|
            0 <= j < i && #[trigger] segs[j].init_segment == Some(x),
    decreases i,
{
    if i == 0 {
        assert(segs.take(0) =~= Seq::<SpecSegment>::empty());
    } else {
        lemma_known_inits_contains(segs, i - 1, x);
        let t = segs.take(i);
        assert(t.drop_last() =~= segs.take(i - 1));
        assert(t.last() == segs[i - 1]);
        let k = known_inits(segs.take(i - 1));
        if known_inits(t).contains(x) {
            if !k.contains(x) {
                let kx = known_inits(t);
                let idx = choose|idx: int| 0 <= idx < kx.len() && kx[idx] == x;
                assert(segs[i - 1].init_segment == Some(x)) by {
                    if idx < k.len() {
                        assert(k[idx] == x);
                    }
                }
            }
        } else {
            if exists|j: int| 0 <= j < i && #[trigger] segs[j].init_segment == Some(x) {
                let j = choose|j: int| 0 <= j < i && #[trigger] segs[j].init_segment == Some(x);
                if j < i - 1 {
                    assert(k.contains(x));
                    let idx = choose|idx: int| 0 <= idx < k.len() && k[idx] == x;
                    assert(known_inits(t)[idx] == x);
                } else {
                    if k.contains(x) {
                        let idx = choose|idx: int| 0 <= idx < k.len() && k[idx] == x;
                        assert(known_inits(t)[idx] == x);
                    } else {
                        assert(known_inits(t)[k.len() as int] == x);
                    }
                }
            }
        }
    }
}

/// Each distinct init segment is downloaded once: a later segment with the
/// same init segment as an earlier one downloads none.
pub proof fn law_init_fetched_once(segs: Seq<SpecSegment>, media_sequence: u64, i: int, j: int)
    requires
        0 <= i < j < segs.len(),
        segs[i].init_segment is Some,
        segs[j].init_segment == segs[i].init_segment,
    ensures
        segment_fetch_spec(segs, media_sequence, j).init is None,
{
    let x = segs[i].init_segment->Some_0;
    lemma_known_inits_contains(segs, j, x);
    assert(segs[i].init_segment == Some(x));
}

/// The first segment that uses an init segment downloads it, from its URL
/// and byte range, into the next free `init_<k>.ts`.
pub proof fn law_init_fetched_at_first_use(segs: Seq<SpecSegment>, media_sequence: u64, i: int)
    requires
        0 <= i < segs.len(),
        segs[i].init_segment is Some,
        forall|j: int| 0 <= j < i ==> #[trigger] segs[j].init_segment != segs[i].init_segment,
    ensures
        segment_fetch_spec(segs, media_sequence, i).init matches Some(f) && f.url
            == segs[i].init_segment->Some_0.url && f.byte_range == segs[i].init_segment->Some_0.byte_range
            && f.filename == init_filename_spec(known_inits(segs.take(i)).len()),
{
    let x = segs[i].init_segment->Some_0;
    lemma_known_inits_contains(segs, i, x);
}

/// Each key is downloaded once: a later segment decrypted with the same key
/// as an earlier one does not fetch it again.
pub proof fn law_key_fetched_once(segs: Seq<SpecSegment>, media_sequence: u64, i: int, j: int, url: Seq<char>)
    requires
        0 <= i < j < segs.len(),
        uses_key(segs[i], url),
        uses_key(segs[j], url),
    ensures
        segment_fetch_spec(segs, media_sequence, j).decryption matches Some(d) && !d.fetch_key,
{
    assert(key_seen(segs, j, url));
}

/// The first segment decrypted with a key fetches it.
pub proof fn law_key_fetched_at_first_use(segs: Seq<SpecSegment>, media_sequence: u64, i: int, url: Seq<char>)
    requires
        0 <= i < segs.len(),
        uses_key(segs[i], url),
        forall|j: int| 0 <= j < i ==> !uses_key(#[trigger] segs[j], url),
    ensures
        segment_fetch_spec(segs, media_sequence, i).decryption matches Some(d) && d.fetch_key && d.key_url == url,
{
}

/// The number that a string of decimal digits denotes.
spec fn digits_value(s: Seq<char>) -> int
    decreases s.len(),
{
    if s.len() == 0 {
        0
    } else {
        digits_value(s.drop_last()) * 10 + (s.last() as int - 48)
    }
}

proof fn lemma_digit_char_value(d: int)
    requires
        0 <= d < 10,
    ensures
        digit_char(d) as int == d + 48,
{
}

proof fn lemma_decimal_value(n: nat)
    ensures
        digits_value(decimal(n)) == n,
    decreases n,
{
    if n < 10 {
        lemma_digit_char_value(n as int);
        assert(decimal(n).drop_last() =~= Seq::<char>::empty());
        assert(decimal(n).last() == digit_char(n as int));
        assert(digits_value(Seq::<char>::empty()) == 0);
        assert(digits_value(decimal(n)) == digits_value(decimal(n).drop_last()) * 10 + (decimal(n).last() as int - 48));
    } else {
        lemma_decimal_value(n / 10);
        lemma_digit_char_value((n % 10) as int);
        assert(decimal(n).drop_last() =~= decimal(n / 10));
        assert(decimal(n).last() == digit_char((n % 10) as int));
        assert((n / 10) * 10 + n % 10 == n);
        assert(digits_value(decimal(n)) == digits_value(decimal(n).drop_last()) * 10 + (decimal(n).last() as int - 48));
    }
}

proof fn lemma_zero_prefix_value(k: nat, s: Seq<char>)
    ensures
        digits_value(Seq::new(k, |i: int| '0') + s) == digits_value(s),
    decreases s.len(), k,
{
    let z = Seq::new(k, |i: int| '0');
    if s.len() == 0 {
        assert(z + s =~= z);
        if k > 0 {
            lemma_zero_prefix_value((k - 1) as nat, s);
            let z1 = Seq::new((k - 1) as nat, |i: int| '0');
            assert(z.drop_last() =~= z1);
            assert(z1 + s =~= z1);
        }
    } else {
        lemma_zero_prefix_value(k, s.drop_last());
        assert((z + s).drop_last() =~= z + s.drop_last());
    }
}

proof fn lemma_pad5_value(n: nat)
    ensures
        digits_value(pad5(n)) == n,
{
    lemma_decimal_value(n);
    let d = decimal(n);
    if d.len() < 5 {
        lemma_zero_prefix_value((5 - d.len()) as nat, d);
    }
}

/// Distinct segments are written to distinct files.
pub proof fn law_segment_files_distinct(i: nat, j: nat)
    requires
        i != j,
    ensures
        segment_filename_spec(i) != segment_filename_spec(j),
{
    reveal_strlit("seg_");
    reveal_strlit(".ts");
    lemma_pad5_value(i);
    lemma_pad5_value(j);
    let a = segment_filename_spec(i);
    let b = segment_filename_spec(j);
    if a == b {
        assert(a.subrange(4, a.len() - 3) =~= pad5(i));
        assert(b.subrange(4, b.len() - 3) =~= pad5(j));
    }
}

/// Each planned segment request fetches the segment's own URL and asks for
/// exactly the byte range the playlist gave the segment (same length and
/// offset), and for the whole resource when it gave none.
pub proof fn law_plan_requests_segment_byte_range(segs: Seq<SpecSegment>, media_sequence: u64, i: int)
    requires
        0 <= i < segs.len(),
    ensures
        segment_fetch_spec(segs, media_sequence, i).url == segs[i].url,
        segs[i].byte_range is None <==> segment_fetch_spec(segs, media_sequence, i).byte_range is None,
        segs[i].byte_range matches Some(b) ==> (segment_fetch_spec(segs, media_sequence, i).byte_range matches Some(
            r,
        ) && r.length == b.length && r.offset == b.offset),
{
}

} // verus!

verus! {

use super::download::{body_lines, header_lines, playlist_lines_spec, segment_lines, SpecLine};

/// The lines of a rewritten playlist that name files (text lines that are
/// not tags), in order.
pub open spec fn file_lines(ls: Seq<SpecLine>) -> Seq<Seq<char>>
    decreases ls.len(),
{
    if ls.len() == 0 {
        seq![]
    } else {
        let rest = file_lines(ls.drop_last());
        match ls.last() {
            SpecLine::Text(t) => if t.len() > 0 && t[0] != '#' {
                rest.push(t)
            } else {
                rest
            },
            SpecLine::Extinf(_) => rest,
        }
    }
}

proof fn lemma_file_lines_concat(a: Seq<SpecLine>, b: Seq<SpecLine>)
    ensures
        file_lines(a + b) == file_lines(a) + file_lines(b),
    decreases b.len(),
{
    if b.len() == 0 {
        assert(a + b =~= a);
        assert(file_lines(a) + file_lines(b) =~= file_lines(a));
    } else {
        lemma_file_lines_concat(a, b.drop_last());
        assert((a + b).drop_last() =~= a + b.drop_last());
        assert((a + b).last() == b.last());
        let fa = file_lines(a);
        let fb = file_lines(b.drop_last());
        match b.last() {
            SpecLine::Text(t) => if t.len() > 0 && t[0] != '#' {
                assert(fa + fb.push(t) =~= (fa + fb).push(t));
            },
            SpecLine::Extinf(_) => {},
        }
    }
}

/// A line that is a tag names no file.
proof fn lemma_tag_line(t: Seq<char>)
    requires
        t.len() > 0,
        t[0] == '#',
    ensures
        file_lines(seq![SpecLine::Text(t)]) == Seq::<Seq<char>>::empty(),
{
    assert(seq![SpecLine::Text(t)].drop_last() =~= Seq::<SpecLine>::empty());
    assert(file_lines(Seq::<SpecLine>::empty()) == Seq::<Seq<char>>::empty());
}

proof fn lemma_segment_lines_files(segs: Seq<SpecSegment>, i: int)
    requires
        0 <= i < segs.len(),
    ensures
        file_lines(segment_lines(segs, i)) == seq![segment_filename_spec(i as nat)],
{
    reveal_strlit("#EXT-X-MAP:URI=\"");
    reveal_strlit("#EXT-X-DISCONTINUITY");
    reveal_strlit("seg_");
    let name = segment_filename_spec(i as nat);
    assert(name[0] == 's');
    let tail = seq![SpecLine::Extinf(i), SpecLine::Text(name)];
    assert(tail.drop_last() =~= seq![SpecLine::Extinf(i)]);
    assert(seq![SpecLine::Extinf(i)].drop_last() =~= Seq::<SpecLine>::empty());
    assert(file_lines(Seq::<SpecLine>::empty()) == Seq::<Seq<char>>::empty());
    assert(file_lines(seq![SpecLine::Extinf(i)]) == Seq::<Seq<char>>::empty());
    assert(file_lines(tail) =~= seq![name]);
    let map_lines = match segs[i].init_segment {
        Some(x) => if super::download::previous_init(segs, i) != Some(x) {
            seq![
                SpecLine::Text(
                    "#EXT-X-MAP:URI=\""@ + init_filename_spec(
                        super::download::index_of(known_inits(segs.take(i + 1)), x) as nat,
                    ) + "\""@,
                ),
            ]
        } else {
            seq![]
        },
        None => seq![],
    };
    let disc_lines = if segs[i].discontinuity {
        seq![SpecLine::Text("#EXT-X-DISCONTINUITY"@)]
    } else {
        seq![]
    };
    assert(segment_lines(segs, i) == map_lines + disc_lines + tail);
    if map_lines.len() > 0 {
        let t = map_lines[0]->Text_0;
        assert(t[0] == '#');
        assert(map_lines =~= seq![SpecLine::Text(t)]);
        lemma_tag_line(t);
    } else {
        assert(file_lines(map_lines) =~= Seq::<Seq<char>>::empty());
    }
    if segs[i].discontinuity {
        lemma_tag_line("#EXT-X-DISCONTINUITY"@);
    } else {
        assert(file_lines(disc_lines) =~= Seq::<Seq<char>>::empty());
    }
    lemma_file_lines_concat(map_lines, disc_lines);
    lemma_file_lines_concat(map_lines + disc_lines, tail);
    assert(file_lines(map_lines + disc_lines) =~= Seq::<Seq<char>>::empty());
    assert(Seq::<Seq<char>>::empty() + seq![name] =~= seq![name]);
}

proof fn lemma_body_files(segs: Seq<SpecSegment>, n: int)
    requires
        0 <= n <= segs.len(),
    ensures
        file_lines(body_lines(segs, n)) == Seq::new(n as nat, |i: int| segment_filename_spec(i as nat)),
    decreases n,
{
    if n == 0 {
        assert(file_lines(body_lines(segs, 0)) =~= Seq::<Seq<char>>::empty());
        assert(Seq::new(0, |i: int| segment_filename_spec(i as nat)) =~= Seq::<Seq<char>>::empty());
    } else {
        lemma_body_files(segs, n - 1);
        lemma_segment_lines_files(segs, n - 1);
        lemma_file_lines_concat(body_lines(segs, n - 1), segment_lines(segs, n - 1));
        assert(Seq::new((n - 1) as nat, |i: int| segment_filename_spec(i as nat)) + seq![
            segment_filename_spec((n - 1) as nat),
        ] =~= Seq::new(n as nat, |i: int| segment_filename_spec(i as nat)));
    }
}

/// The rewritten playlist names exactly the local segment files, one per
/// segment and in order (`seg_00000.ts`, `seg_00001.ts`, ...); every other
/// line is a tag.
pub proof fn law_rewritten_playlist_names_segment_files(p: SpecPlaylist)
    ensures
        file_lines(playlist_lines_spec(p)) == Seq::new(
            p.segments.len(),
            |i: int| segment_filename_spec(i as nat),
        ),
{
    reveal_strlit("#EXTM3U");
    reveal_strlit("#EXT-X-TARGETDURATION:");
    reveal_strlit("#EXT-X-MEDIA-SEQUENCE:0");
    reveal_strlit("#EXT-X-ENDLIST");
    let h = header_lines(p.target_duration);
    let b = body_lines(p.segments, p.segments.len() as int);
    let e: Seq<SpecLine> = if p.end_list {
        seq![SpecLine::Text("#EXT-X-ENDLIST"@)]
    } else {
        seq![]
    };
    let td: Seq<SpecLine> = match p.target_duration {
        Some(t) => seq![SpecLine::Text("#EXT-X-TARGETDURATION:"@ + crate::text::decimal(t as nat))],
        None => seq![],
    };
    assert(h == seq![SpecLine::Text("#EXTM3U"@)] + td + seq![SpecLine::Text("#EXT-X-MEDIA-SEQUENCE:0"@)]);
    lemma_tag_line("#EXTM3U"@);
    lemma_tag_line("#EXT-X-MEDIA-SEQUENCE:0"@);
    if let Some(t) = p.target_duration {
        let line = "#EXT-X-TARGETDURATION:"@ + crate::text::decimal(t as nat);
        assert(line[0] == '#');
        lemma_tag_line(line);
    } else {
        assert(file_lines(td) =~= Seq::<Seq<char>>::empty());
    }
    lemma_file_lines_concat(seq![SpecLine::Text("#EXTM3U"@)], td);
    lemma_file_lines_concat(seq![SpecLine::Text("#EXTM3U"@)] + td, seq![SpecLine::Text("#EXT-X-MEDIA-SEQUENCE:0"@)]);
    assert(file_lines(h) =~= Seq::<Seq<char>>::empty());
    if p.end_list {
        lemma_tag_line("#EXT-X-ENDLIST"@);
    } else {
        assert(file_lines(e) =~= Seq::<Seq<char>>::empty());
    }
    lemma_body_files(p.segments, p.segments.len() as int);
    lemma_file_lines_concat(h, b);
    lemma_file_lines_concat(h + b, e);
    assert(playlist_lines_spec(p) == h + b + e);
    assert(Seq::<Seq<char>>::empty() + file_lines(b) + Seq::<Seq<char>>::empty() =~= file_lines(b));
}

} // verus!
