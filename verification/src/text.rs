//! Character-level text utilities with their specifications.
//!
//! Strings are handled as sequences of Unicode scalar values (`Seq<char>`),
//! which is what a `&str` or `String` views as.

use vstd::prelude::*;

verus! {

/// The characters of a string slice, in order.
pub(crate) fn chars_of(s: &str) -> (r: Vec<char>)
    ensures
        r@ == s@,
{
    let mut out: Vec<char> = Vec::new();
    for c in it: s.chars()
        invariant
            it.seq() == s@,
            out@ == it.seq().take(it.index() as int),
    {
        proof {
            assert(it.seq().take(it.index() + 1) =~= out@.push(c));
        }
        out.push(c);
    }
    assert(out@ =~= s@);
    out
}

/// Collects characters into an owned string (`String::from_iter`).
#[verifier::external_body]
pub(crate) fn string_of(v: &[char]) -> (r: String)
    ensures
        r@ == v@,
{
    String::from_iter(v)
}

/// Index of the first occurrence of `c` in `s`, or `s.len()` when absent.
pub open spec fn first_index(s: Seq<char>, c: char) -> int
    decreases s.len(),
{
    if s.len() == 0 {
        0
    } else if s[0] == c {
        0
    } else {
        1 + first_index(s.drop_first(), c)
    }
}

pub proof fn lemma_first_index(s: Seq<char>, c: char)
    ensures
        0 <= first_index(s, c) <= s.len(),
        first_index(s, c) < s.len() ==> s[first_index(s, c)] == c,
        forall|j: int| 0 <= j < first_index(s, c) ==> s[j] != c,
    decreases s.len(),
{
    if s.len() > 0 && s[0] != c {
        lemma_first_index(s.drop_first(), c);
        assert forall|j: int| 0 <= j < first_index(s, c) implies s[j] != c by {
            if j > 0 {
                assert(s[j] == s.drop_first()[j - 1]);
            }
        }
    }
}

pub proof fn lemma_first_index_unique(s: Seq<char>, c: char, i: int)
    requires
        0 <= i <= s.len(),
        i < s.len() ==> s[i] == c,
        forall|j: int| 0 <= j < i ==> s[j] != c,
    ensures
        first_index(s, c) == i,
    decreases s.len(),
{
    if s.len() > 0 && i > 0 {
        lemma_first_index_unique(s.drop_first(), c, i - 1);
    }
}

/// Position of the first `c` in `v`, if any.
pub fn find_char(v: &[char], c: char) -> (r: Option<usize>)
    ensures
        match r {
            Some(i) => i == first_index(v@, c) && i < v@.len(),
            None => first_index(v@, c) == v@.len(),
        },
{
    let mut i: usize = 0;
    while i < v.len()
        invariant
            i <= v@.len(),
            forall|j: int| 0 <= j < i ==> v@[j] != c,
        decreases v.len() - i,
    {
        if v[i] == c {
            proof {
                lemma_first_index_unique(v@, c, i as int);
            }
            return Some(i);
        }
        i = i + 1;
    }
    proof {
        lemma_first_index_unique(v@, c, i as int);
    }
    None
}

} // verus!

verus! {

/// Copies the characters `v[lo..hi]` into a fresh vector.
pub fn subvec(v: &[char], lo: usize, hi: usize) -> (r: Vec<char>)
    requires
        lo <= hi <= v@.len(),
    ensures
        r@ == v@.subrange(lo as int, hi as int),
{
    let mut r: Vec<char> = Vec::new();
    let mut i = lo;
    while i < hi
        invariant
            lo <= i <= hi <= v@.len(),
            r@ == v@.subrange(lo as int, i as int),
        decreases hi - i,
    {
        r.push(v[i]);
        i = i + 1;
    }
    r
}

/// `p` is a prefix of `s`.
pub open spec fn has_prefix(s: Seq<char>, p: Seq<char>) -> bool {
    p.len() <= s.len() && s.take(p.len() as int) == p
}

/// Whether `v` starts with `p`.
pub fn starts_with(v: &[char], p: &[char]) -> (r: bool)
    ensures
        r == has_prefix(v@, p@),
{
    if p.len() > v.len() {
        return false;
    }
    let mut i: usize = 0;
    while i < p.len()
        invariant
            p@.len() <= v@.len(),
            i <= p@.len(),
            forall|j: int| 0 <= j < i ==> v@[j] == p@[j],
        decreases p.len() - i,
    {
        if v[i] != p[i] {
            assert(v@.take(p@.len() as int)[i as int] != p@[i as int]);
            return false;
        }
        i = i + 1;
    }
    assert(v@.take(p@.len() as int) =~= p@);
    true
}

/// Whether the two character sequences are equal.
pub fn chars_eq(a: &[char], b: &[char]) -> (r: bool)
    ensures
        r == (a@ == b@),
{
    if a.len() != b.len() {
        return false;
    }
    let r = starts_with(a, b);
    assert(a@.take(b@.len() as int) =~= a@);
    r
}

/// Unicode `White_Space` characters, the set that `str::trim` removes.
pub open spec fn is_whitespace(c: char) -> bool {
    let u = c as u32;
    (0x9 <= u && u <= 0xD) || u == 0x20 || u == 0x85 || u == 0xA0 || u == 0x1680 || (0x2000 <= u
        && u <= 0x200A) || u == 0x2028 || u == 0x2029 || u == 0x202F || u == 0x205F || u == 0x3000
}

pub fn char_is_whitespace(c: char) -> (r: bool)
    ensures
        r == is_whitespace(c),
{
    let u = c as u32;
    (0x9 <= u && u <= 0xD) || u == 0x20 || u == 0x85 || u == 0xA0 || u == 0x1680 || (0x2000 <= u
        && u <= 0x200A) || u == 0x2028 || u == 0x2029 || u == 0x202F || u == 0x205F || u == 0x3000
}

/// Number of leading whitespace characters.
pub open spec fn lead_ws(s: Seq<char>) -> int
    decreases s.len(),
{
    if s.len() > 0 && is_whitespace(s[0]) {
        1 + lead_ws(s.drop_first())
    } else {
        0
    }
}

/// Number of trailing whitespace characters.
pub open spec fn trail_ws(s: Seq<char>) -> int
    decreases s.len(),
{
    if s.len() > 0 && is_whitespace(s.last()) {
        1 + trail_ws(s.drop_last())
    } else {
        0
    }
}

/// `s` without leading whitespace (`str::trim_start`).
pub open spec fn trim_start(s: Seq<char>) -> Seq<char> {
    s.skip(lead_ws(s))
}

/// `s` without trailing whitespace (`str::trim_end`).
pub open spec fn trim_end(s: Seq<char>) -> Seq<char> {
    s.take(s.len() - trail_ws(s))
}

/// `s` without leading and trailing whitespace (`str::trim`).
pub open spec fn trim(s: Seq<char>) -> Seq<char> {
    trim_end(trim_start(s))
}

pub proof fn lemma_lead_ws_unique(s: Seq<char>, i: int)
    requires
        0 <= i <= s.len(),
        i < s.len() ==> !is_whitespace(s[i]),
        forall|j: int| 0 <= j < i ==> is_whitespace(s[j]),
    ensures
        lead_ws(s) == i,
    decreases s.len(),
{
    if s.len() > 0 && i > 0 {
        assert forall|j: int| 0 <= j < i - 1 implies is_whitespace(s.drop_first()[j]) by {
            assert(s.drop_first()[j] == s[j + 1]);
        }
        lemma_lead_ws_unique(s.drop_first(), i - 1);
    }
}

pub proof fn lemma_trail_ws_unique(s: Seq<char>, k: int)
    requires
        0 <= k <= s.len(),
        k < s.len() ==> !is_whitespace(s[s.len() - 1 - k]),
        forall|j: int| s.len() - k <= j < s.len() ==> is_whitespace(s[j]),
    ensures
        trail_ws(s) == k,
    decreases s.len(),
{
    if s.len() > 0 && k > 0 {
        let t = s.drop_last();
        assert forall|j: int| t.len() - (k - 1) <= j < t.len() implies is_whitespace(t[j]) by {
            assert(t[j] == s[j]);
        }
        if k - 1 < t.len() {
            assert(t[t.len() - 1 - (k - 1)] == s[s.len() - 1 - k]);
        }
        lemma_trail_ws_unique(t, k - 1);
    }
}

/// `v` with leading whitespace removed.
pub fn trim_start_chars(v: &[char]) -> (r: Vec<char>)
    ensures
        r@ == trim_start(v@),
{
    let mut i: usize = 0;
    while i < v.len() && char_is_whitespace(v[i])
        invariant
            i <= v@.len(),
            forall|j: int| 0 <= j < i ==> is_whitespace(v@[j]),
        decreases v.len() - i,
    {
        i = i + 1;
    }
    proof {
        lemma_lead_ws_unique(v@, i as int);
    }
    subvec(v, i, v.len())
}

/// `v` with trailing whitespace removed.
pub fn trim_end_chars(v: &[char]) -> (r: Vec<char>)
    ensures
        r@ == trim_end(v@),
{
    let mut k: usize = 0;
    while k < v.len() && char_is_whitespace(v[v.len() - 1 - k])
        invariant
            k <= v@.len(),
            forall|j: int| v@.len() - k <= j < v@.len() ==> is_whitespace(v@[j]),
        decreases v.len() - k,
    {
        k = k + 1;
    }
    proof {
        lemma_trail_ws_unique(v@, k as int);
    }
    subvec(v, 0, v.len() - k)
}

/// `v` with leading and trailing whitespace removed.
pub fn trim_chars(v: &[char]) -> (r: Vec<char>)
    ensures
        r@ == trim(v@),
{
    let a = trim_start_chars(v);
    trim_end_chars(a.as_slice())
}

} // verus!

verus! {

/// Drops one trailing carriage return.
pub open spec fn strip_cr(s: Seq<char>) -> Seq<char> {
    if s.len() > 0 && s.last() == '\r' {
        s.drop_last()
    } else {
        s
    }
}

/// The lines of `s` as `str::lines` yields them: split at `\n`, a `\r` before
/// the `\n` removed, and no empty line after a final line ending.
pub open spec fn lines_of(s: Seq<char>) -> Seq<Seq<char>>
    decreases s.len(),
{
    if s.len() == 0 {
        seq![]
    } else {
        let i = first_index(s, '\n');
        proof {
            lemma_first_index(s, '\n');
        }
        if i < s.len() {
            seq![strip_cr(s.take(i))] + lines_of(s.skip(i + 1))
        } else {
            seq![s]
        }
    }
}

/// The views of a sequence of character vectors.
pub open spec fn views_of(v: Seq<Vec<char>>) -> Seq<Seq<char>> {
    v.map_values(|l: Vec<char>| l@)
}

fn strip_cr_chars(v: Vec<char>) -> (r: Vec<char>)
    ensures
        r@ == strip_cr(v@),
{
    let mut v = v;
    if v.len() > 0 && v[v.len() - 1] == '\r' {
        v.pop();
    }
    v
}

/// Splits `v` into lines (see [`lines_of`]).
pub fn split_lines(v: &[char]) -> (r: Vec<Vec<char>>)
    ensures
        views_of(r@) == lines_of(v@),
{
    let n = v.len();
    let mut out: Vec<Vec<char>> = Vec::new();
    let mut pos: usize = 0;
    assert(v@.skip(0) =~= v@);
    assert(views_of(out@) + lines_of(v@) =~= lines_of(v@));
    while pos < n
        invariant
            n == v@.len(),
            pos <= n,
            lines_of(v@) == views_of(out@) + lines_of(v@.skip(pos as int)),
        decreases n - pos,
    {
        let rest = &v[pos..n];
        assert(rest@ == v@.skip(pos as int));
        proof {
            lemma_first_index(rest@, '\n');
        }
        match find_char(rest, '\n') {
            Some(k) => {
                let line = strip_cr_chars(subvec(rest, 0, k));
                let ghost before = out@;
                out.push(line);
                assert(views_of(out@) =~= views_of(before).push(line@));
                assert(rest@.skip(k + 1) =~= v@.skip(pos + k + 1));
                pos = pos + k + 1;
            },
            None => {
                let line = subvec(rest, 0, rest.len());
                let ghost before = out@;
                out.push(line);
                assert(views_of(out@) =~= views_of(before).push(line@));
                assert(line@ =~= rest@);
                pos = n;
                assert(v@.skip(n as int) =~= Seq::<char>::empty());
            },
        }
    }
    assert(v@.skip(n as int) =~= Seq::<char>::empty());
    assert(views_of(out@) + Seq::<Seq<char>>::empty() =~= views_of(out@));
    out
}

} // verus!

verus! {

/// Why a decimal integer failed to parse, as `core::num::IntErrorKind` says.
#[derive(Debug, Clone, Copy, PartialEq, Eq, Structural)]
pub enum IntParseError {
    Empty,
    InvalidDigit,
    PosOverflow,
    NegOverflow,
}

pub open spec fn is_digit(c: char) -> bool {
    '0' <= c && c <= '9'
}

pub open spec fn digit_value(c: char) -> int {
    (c as int) - ('0' as int)
}

/// Left-to-right accumulation of decimal digits onto `acc`, failing at the
/// first non-digit or the first prefix whose value exceeds `max`.
pub open spec fn accumulate_digits(d: Seq<char>, acc: int, max: int) -> Result<int, IntParseError>
    decreases d.len(),
{
    if d.len() == 0 {
        Ok(acc)
    } else if !is_digit(d[0]) {
        Err(IntParseError::InvalidDigit)
    } else if acc * 10 + digit_value(d[0]) > max {
        Err(IntParseError::PosOverflow)
    } else {
        accumulate_digits(d.drop_first(), acc * 10 + digit_value(d[0]), max)
    }
}

/// `u64::from_str`: an optional `+` followed by decimal digits, within range.
pub open spec fn parse_u64_spec(s: Seq<char>) -> Result<u64, IntParseError> {
    if s.len() == 0 {
        Err(IntParseError::Empty)
    } else if s.len() == 1 && (s[0] == '+' || s[0] == '-') {
        Err(IntParseError::InvalidDigit)
    } else {
        let d = if s[0] == '+' {
            s.drop_first()
        } else {
            s
        };
        match accumulate_digits(d, 0, u64::MAX as int) {
            Ok(v) => Ok(v as u64),
            Err(e) => Err(e),
        }
    }
}

proof fn lemma_accumulate_bounds(d: Seq<char>, acc: int, max: int)
    requires
        0 <= acc <= max,
    ensures
        accumulate_digits(d, acc, max) matches Ok(v) ==> 0 <= v <= max,
    decreases d.len(),
{
    if d.len() > 0 && is_digit(d[0]) && acc * 10 + digit_value(d[0]) <= max {
        lemma_accumulate_bounds(d.drop_first(), acc * 10 + digit_value(d[0]), max);
    }
}

/// Parses decimal digits of `v[start..]` onto zero, bounded by `u64::MAX`.
fn accumulate_u64(v: &[char], start: usize) -> (r: Result<u64, IntParseError>)
    requires
        start <= v@.len(),
    ensures
        match accumulate_digits(v@.skip(start as int), 0, u64::MAX as int) {
            Ok(x) => r == Ok::<u64, IntParseError>(x as u64),
            Err(e) => r == Err::<u64, IntParseError>(e),
        },
{
    let mut acc: u64 = 0;
    let mut i = start;
    assert(v@.skip(start as int) =~= v@.skip(i as int));
    while i < v.len()
        invariant
            start <= i <= v@.len(),
            accumulate_digits(v@.skip(start as int), 0, u64::MAX as int) == accumulate_digits(
                v@.skip(i as int),
                acc as int,
                u64::MAX as int,
            ),
        decreases v.len() - i,
    {
        let c = v[i];
        assert(v@.skip(i as int)[0] == c);
        assert(v@.skip(i as int).drop_first() =~= v@.skip(i + 1));
        if !('0' <= c && c <= '9') {
            return Err(IntParseError::InvalidDigit);
        }
        let d = (c as u32 - '0' as u32) as u64;
        assert(d as int == digit_value(c));
        if acc > (u64::MAX - d) / 10 {
            assert(acc * 10 + d > u64::MAX) by (nonlinear_arith)
                requires
                    acc > (u64::MAX - d) / 10,
                    d <= 9,
            ;
            return Err(IntParseError::PosOverflow);
        }
        assert(acc * 10 + d <= u64::MAX) by (nonlinear_arith)
            requires
                acc <= (u64::MAX - d) / 10,
                d <= 9,
        ;
        acc = acc * 10 + d;
        i = i + 1;
    }
    assert(v@.skip(i as int).len() == 0);
    Ok(acc)
}

/// Parses a `u64` exactly as `u64::from_str` does.
pub fn parse_u64(v: &[char]) -> (r: Result<u64, IntParseError>)
    ensures
        r == parse_u64_spec(v@),
{
    if v.len() == 0 {
        return Err(IntParseError::Empty);
    }
    if v.len() == 1 && (v[0] == '+' || v[0] == '-') {
        return Err(IntParseError::InvalidDigit);
    }
    if v[0] == '+' {
        assert(v@.skip(1) =~= v@.drop_first());
        accumulate_u64(v, 1)
    } else {
        assert(v@.skip(0) =~= v@);
        accumulate_u64(v, 0)
    }
}

/// `i32::from_str` success value: optional sign, digits, within range.
pub open spec fn parse_i32_spec(s: Seq<char>) -> Option<i32> {
    if s.len() == 0 || (s.len() == 1 && (s[0] == '+' || s[0] == '-')) {
        None
    } else if s[0] == '-' {
        match accumulate_digits(s.drop_first(), 0, 0x8000_0000) {
            Ok(v) => Some((-v) as i32),
            Err(_) => None,
        }
    } else {
        let d = if s[0] == '+' {
            s.drop_first()
        } else {
            s
        };
        match accumulate_digits(d, 0, 0x7fff_ffff) {
            Ok(v) => Some(v as i32),
            Err(_) => None,
        }
    }
}

fn accumulate_bounded(v: &[char], start: usize, max: u64) -> (r: Option<u64>)
    requires
        start <= v@.len(),
        max <= 0x8000_0000,
    ensures
        match accumulate_digits(v@.skip(start as int), 0, max as int) {
            Ok(x) => r == Some(x as u64) && x <= max,
            Err(_) => r is None,
        },
        r matches Some(x) ==> x <= max && accumulate_digits(v@.skip(start as int), 0, max as int)
            == Ok::<int, IntParseError>(x as int),
{
    let mut acc: u64 = 0;
    let mut i = start;
    assert(v@.skip(start as int) =~= v@.skip(i as int));
    while i < v.len()
        invariant
            start <= i <= v@.len(),
            max <= 0x8000_0000,
            acc <= max,
            accumulate_digits(v@.skip(start as int), 0, max as int) == accumulate_digits(
                v@.skip(i as int),
                acc as int,
                max as int,
            ),
        decreases v.len() - i,
    {
        let c = v[i];
        assert(v@.skip(i as int)[0] == c);
        assert(v@.skip(i as int).drop_first() =~= v@.skip(i + 1));
        if !('0' <= c && c <= '9') {
            return None;
        }
        let d = (c as u32 - '0' as u32) as u64;
        assert(d as int == digit_value(c));
        if acc * 10 + d > max {
            return None;
        }
        acc = acc * 10 + d;
        i = i + 1;
    }
    assert(v@.skip(i as int).len() == 0);
    Some(acc)
}

/// Parses an `i32` with the acceptance and value of `i32::from_str`.
pub fn parse_i32(v: &[char]) -> (r: Option<i32>)
    ensures
        r == parse_i32_spec(v@),
{
    if v.len() == 0 || (v.len() == 1 && (v[0] == '+' || v[0] == '-')) {
        return None;
    }
    if v[0] == '-' {
        assert(v@.skip(1) =~= v@.drop_first());
        match accumulate_bounded(v, 1, 0x8000_0000) {
            Some(x) => Some((0 - (x as i64)) as i32),
            None => None,
        }
    } else {
        let start: usize = if v[0] == '+' {
            1
        } else {
            0
        };
        assert(v@.skip(1) =~= v@.drop_first());
        assert(v@.skip(0) =~= v@);
        match accumulate_bounded(v, start, 0x7fff_ffff) {
            Some(x) => Some(x as i32),
            None => None,
        }
    }
}

} // verus!

verus! {

pub open spec fn digit_char(d: int) -> char {
    ((d + 48) as u8) as char
}

/// Decimal rendering of a natural number, most significant digit first.
pub open spec fn decimal(n: nat) -> Seq<char>
    decreases n,
{
    if n < 10 {
        seq![digit_char(n as int)]
    } else {
        decimal(n / 10).push(digit_char((n % 10) as int))
    }
}

/// Decimal rendering of an integer, with a leading `-` when negative.
pub open spec fn signed_decimal(n: int) -> Seq<char> {
    if n < 0 {
        seq!['-'] + decimal((-n) as nat)
    } else {
        decimal(n as nat)
    }
}

fn digit_to_char(d: u128) -> (c: char)
    requires
        d < 10,
    ensures
        c == digit_char(d as int),
{
    ((d as u8) + 48u8) as char
}

/// The decimal digits of `n`.
pub fn decimal_chars(n: u128) -> (r: Vec<char>)
    ensures
        r@ == decimal(n as nat),
    decreases n,
{
    if n < 10 {
        let mut r = Vec::new();
        r.push(digit_to_char(n));
        assert(r@ =~= seq![digit_char(n as int)]);
        r
    } else {
        let mut r = decimal_chars(n / 10);
        r.push(digit_to_char(n % 10));
        r
    }
}

/// `n.to_string()` for an unsigned integer.
pub fn decimal_string(n: u64) -> (r: String)
    ensures
        r@ == decimal(n as nat),
{
    let v = decimal_chars(n as u128);
    string_of(v.as_slice())
}

/// `n.to_string()` for a 128-bit unsigned integer.
pub fn decimal_string_u128(n: u128) -> (r: String)
    ensures
        r@ == decimal(n as nat),
{
    let v = decimal_chars(n);
    string_of(v.as_slice())
}

/// `n.to_string()` for a signed integer.
pub fn signed_decimal_string(n: i64) -> (r: String)
    ensures
        r@ == signed_decimal(n as int),
{
    if n < 0 {
        let mag: u64 = if n == i64::MIN {
            0x8000_0000_0000_0000u64
        } else {
            (-n) as u64
        };
        let mut v: Vec<char> = Vec::new();
        v.push('-');
        let mut d = decimal_chars(mag as u128);
        let ghost dv = d@;
        v.append(&mut d);
        assert(v@ =~= seq!['-'] + dv);
        string_of(v.as_slice())
    } else {
        decimal_string(n as u64)
    }
}

/// ASCII lower-casing of one character.
pub open spec fn ascii_lower(c: char) -> char {
    if 'A' <= c && c <= 'Z' {
        ((c as u32) + 32) as char
    } else {
        c
    }
}

pub open spec fn lower_eq(s: Seq<char>, lit: Seq<char>) -> bool {
    s.len() == lit.len() && forall|i: int| 0 <= i < s.len() ==> ascii_lower(#[trigger] s[i]) == lit[i]
}

/// Number of leading decimal digits.
pub open spec fn lead_digits(s: Seq<char>) -> int
    decreases s.len(),
{
    if s.len() > 0 && is_digit(s[0]) {
        1 + lead_digits(s.drop_first())
    } else {
        0
    }
}

pub open spec fn without_sign(s: Seq<char>) -> Seq<char> {
    if s.len() > 0 && (s[0] == '+' || s[0] == '-') {
        s.drop_first()
    } else {
        s
    }
}

/// `Exp ::= 'e' Sign? Digit+` after the `e`.
pub open spec fn exponent_ok(s: Seq<char>) -> bool {
    let d = without_sign(s);
    d.len() > 0 && lead_digits(d) == d.len()
}

/// `Number ::= (Digit+ | Digit+ '.' Digit* | Digit* '.' Digit+) Exp?`
pub open spec fn decimal_number(b: Seq<char>) -> bool {
    let i = lead_digits(b);
    let rest = b.skip(i);
    let has_dot = rest.len() > 0 && rest[0] == '.';
    let j = if has_dot {
        lead_digits(rest.drop_first())
    } else {
        0
    };
    let after = if has_dot {
        rest.skip(1 + j)
    } else {
        rest
    };
    (i > 0 || j > 0) && (after.len() == 0 || (ascii_lower(after[0]) == 'e' && exponent_ok(
        after.drop_first(),
    )))
}

/// The strings `f64::from_str` accepts (its documented grammar, matched
/// without regard to ASCII case).
pub open spec fn float_literal(s: Seq<char>) -> bool {
    let b = without_sign(s);
    lower_eq(b, "inf"@) || lower_eq(b, "infinity"@) || lower_eq(b, "nan"@) || decimal_number(b)
}

} // verus!

verus! {

pub fn ascii_lower_char(c: char) -> (r: char)
    ensures
        r == ascii_lower(c),
{
    if 'A' <= c && c <= 'Z' {
        ((c as u8) + 32) as char
    } else {
        c
    }
}

fn lower_eq_chars(v: &[char], lit: &[char]) -> (r: bool)
    ensures
        r == lower_eq(v@, lit@),
{
    if v.len() != lit.len() {
        return false;
    }
    let mut i: usize = 0;
    while i < v.len()
        invariant
            v@.len() == lit@.len(),
            i <= v@.len(),
            forall|j: int| 0 <= j < i ==> ascii_lower(#[trigger] v@[j]) == lit@[j],
        decreases v.len() - i,
    {
        if ascii_lower_char(v[i]) != lit[i] {
            return false;
        }
        i = i + 1;
    }
    true
}

proof fn lemma_lead_digits_unique(s: Seq<char>, k: int)
    requires
        0 <= k <= s.len(),
        k < s.len() ==> !is_digit(s[k]),
        forall|j: int| 0 <= j < k ==> is_digit(s[j]),
    ensures
        lead_digits(s) == k,
    decreases s.len(),
{
    if s.len() > 0 && k > 0 {
        assert forall|j: int| 0 <= j < k - 1 implies is_digit(s.drop_first()[j]) by {
            assert(s.drop_first()[j] == s[j + 1]);
        }
        lemma_lead_digits_unique(s.drop_first(), k - 1);
    }
}

/// A run of decimal digits (possibly empty).
pub open spec fn all_digits(s: Seq<char>) -> bool {
    forall|i: int| 0 <= i < s.len() ==> is_digit(#[trigger] s[i])
}

proof fn lemma_lead_digits_props(s: Seq<char>)
    ensures
        0 <= lead_digits(s) <= s.len(),
        forall|j: int| 0 <= j < lead_digits(s) ==> is_digit(#[trigger] s[j]),
        lead_digits(s) < s.len() ==> !is_digit(s[lead_digits(s)]),
    decreases s.len(),
{
    if s.len() > 0 && is_digit(s[0]) {
        lemma_lead_digits_props(s.drop_first());
        assert forall|j: int| 0 <= j < lead_digits(s) implies is_digit(#[trigger] s[j]) by {
            if j > 0 {
                assert(s[j] == s.drop_first()[j - 1]);
            }
        }
        if lead_digits(s) < s.len() {
            assert(s[lead_digits(s)] == s.drop_first()[lead_digits(s.drop_first())]);
        }
    }
}

proof fn lemma_lead_digits_concat(d: Seq<char>, t: Seq<char>)
    requires
        all_digits(d),
    ensures
        lead_digits(d + t) == d.len() + lead_digits(t),
{
    lemma_lead_digits_props(t);
    let u = d + t;
    let k = d.len() + lead_digits(t);
    assert forall|j: int| 0 <= j < k implies is_digit(u[j]) by {
        if j < d.len() {
            assert(u[j] == d[j]);
        } else {
            assert(u[j] == t[j - d.len()]);
        }
    }
    if k < u.len() {
        assert(u[k] == t[lead_digits(t)]);
    }
    lemma_lead_digits_unique(u, k);
}

/// The numbers `f64::from_str` reads are accepted, with or without a sign:
/// a run of digits (`10`), digits with a decimal point and digits on either
/// side (`5.0`, `5.`, `.5`), and digits with an exponent (`1e3`, `1E-3`).
/// Nothing is read from an empty string or a lone point, nor from digits
/// followed by a character that is not part of a number.
pub proof fn law_float_literal_forms(a: Seq<char>, b: Seq<char>, e: Seq<char>, c: char)
    requires
        all_digits(a),
        all_digits(b),
        all_digits(e),
    ensures
        a.len() > 0 ==> float_literal(a) && float_literal(seq!['-'] + a) && float_literal(seq!['+'] + a),
        a.len() + b.len() > 0 ==> float_literal(a + seq!['.'] + b),
        a.len() > 0 && e.len() > 0 ==> float_literal(a + seq!['e'] + e) && float_literal(
            a + seq!['E', '-'] + e,
        ),
        !float_literal(Seq::<char>::empty()),
        !float_literal(seq!['.']),
        a.len() > 0 && !is_digit(c) && c != '.' && c != 'e' && c != 'E' ==> !float_literal(a + seq![c]),
{
    reveal_strlit("inf");
    reveal_strlit("infinity");
    reveal_strlit("nan");
    let empty = Seq::<char>::empty();
    lemma_lead_digits_props(empty);
    if a.len() > 0 {
        lemma_not_special(a);
        assert(a + empty =~= a);
        lemma_lead_digits_concat(a, empty);
        assert(a.skip(a.len() as int) =~= empty);
        assert(decimal_number(a));
        assert((seq!['-'] + a).drop_first() =~= a);
        assert((seq!['+'] + a).drop_first() =~= a);
        assert(without_sign(a) == a);
    }
    if a.len() + b.len() > 0 {
        let x = a + seq!['.'] + b;
        let r = seq!['.'] + b;
        assert(x =~= a + r);
        assert(x[0] == if a.len() > 0 { a[0] } else { '.' });
        lemma_not_special(x);
        assert(without_sign(x) == x);
        lemma_lead_digits_props(r);
        assert(lead_digits(r) == 0);
        lemma_lead_digits_concat(a, r);
        assert(x.skip(a.len() as int) =~= r);
        assert(r.drop_first() =~= b);
        assert(b + empty =~= b);
        lemma_lead_digits_concat(b, empty);
        assert(r.skip(1 + b.len() as int) =~= empty);
        assert(decimal_number(x));
    }
    if a.len() > 0 && e.len() > 0 {
        assert(e + empty =~= e);
        lemma_lead_digits_concat(e, empty);
        assert(without_sign(e) == e);
        assert(exponent_ok(e));
        let r1 = seq!['e'] + e;
        let y1 = a + seq!['e'] + e;
        assert(y1 =~= a + r1);
        assert(y1[0] == a[0]);
        lemma_not_special(y1);
        assert(without_sign(y1) == y1);
        lemma_lead_digits_props(r1);
        assert(lead_digits(r1) == 0);
        lemma_lead_digits_concat(a, r1);
        assert(y1.skip(a.len() as int) =~= r1);
        assert(r1.drop_first() =~= e);
        assert(decimal_number(y1));
        let r2 = seq!['E', '-'] + e;
        let y2 = a + seq!['E', '-'] + e;
        assert(y2 =~= a + r2);
        assert(y2[0] == a[0]);
        lemma_not_special(y2);
        assert(without_sign(y2) == y2);
        lemma_lead_digits_props(r2);
        assert(lead_digits(r2) == 0);
        lemma_lead_digits_concat(a, r2);
        assert(y2.skip(a.len() as int) =~= r2);
        assert(r2.drop_first() =~= seq!['-'] + e);
        assert((seq!['-'] + e).drop_first() =~= e);
        assert(exponent_ok(r2.drop_first()));
        assert(decimal_number(y2));
    }
    if a.len() > 0 && !is_digit(c) && c != '.' && c != 'e' && c != 'E' {
        let r = seq![c];
        let z = a + r;
        assert(z[0] == a[0]);
        lemma_not_special(z);
        assert(without_sign(z) == z);
        lemma_lead_digits_props(r);
        assert(lead_digits(r) == 0);
        lemma_lead_digits_concat(a, r);
        assert(z.skip(a.len() as int) =~= r);
        assert(ascii_lower(c) != 'e');
        assert(!decimal_number(z));
    }
}

/// Text that starts with a digit or a point is none of `inf`, `infinity`
/// and `nan`, whatever its case.
proof fn lemma_not_special(x: Seq<char>)
    requires
        x.len() > 0,
        is_digit(x[0]) || x[0] == '.',
    ensures
        !lower_eq(x, "inf"@),
        !lower_eq(x, "infinity"@),
        !lower_eq(x, "nan"@),
{
    reveal_strlit("inf");
    reveal_strlit("infinity");
    reveal_strlit("nan");
    assert(ascii_lower(x[0]) == x[0]);
    if lower_eq(x, "inf"@) {
        assert(ascii_lower(x[0]) == "inf"@[0]);
    }
    if lower_eq(x, "infinity"@) {
        assert(ascii_lower(x[0]) == "infinity"@[0]);
    }
    if lower_eq(x, "nan"@) {
        assert(ascii_lower(x[0]) == "nan"@[0]);
    }
}

/// Number of decimal digits at the start of `v[from..]`.
fn count_digits(v: &[char], from: usize) -> (k: usize)
    requires
        from <= v@.len(),
    ensures
        from + k <= v@.len(),
        k == lead_digits(v@.skip(from as int)),
{
    let n = v.len();
    let mut p = from;
    while p < n && '0' <= v[p] && v[p] <= '9'
        invariant
            n == v@.len(),
            from <= p <= n,
            forall|j: int| 0 <= j < p - from ==> is_digit(v@.skip(from as int)[j]),
        decreases n - p,
    {
        p = p + 1;
    }
    proof {
        lemma_lead_digits_unique(v@.skip(from as int), (p - from) as int);
    }
    p - from
}

fn sign_len(v: &[char], from: usize) -> (k: usize)
    requires
        from <= v@.len(),
    ensures
        v@.skip(from as int).skip(k as int) == without_sign(v@.skip(from as int)),
        from + k <= v@.len(),
{
    if from < v.len() && (v[from] == '+' || v[from] == '-') {
        assert(v@.skip(from as int).skip(1) =~= v@.skip(from as int).drop_first());
        1
    } else {
        assert(v@.skip(from as int).skip(0) =~= v@.skip(from as int));
        0
    }
}

fn is_decimal_number(v: &[char], from: usize) -> (r: bool)
    requires
        from <= v@.len(),
    ensures
        r == decimal_number(v@.skip(from as int)),
{
    let ghost b = v@.skip(from as int);
    let n = v.len();
    let i = count_digits(v, from);
    assert(from + i <= n);
    let p = from + i;
    assert(b.skip(i as int) =~= v@.skip(p as int));
    let has_dot = p < v.len() && v[p] == '.';
    let mut j: usize = 0;
    let mut q = p;
    if has_dot {
        j = count_digits(v, p + 1);
        assert(v@.skip(p as int).drop_first() =~= v@.skip(p + 1));
        q = p + 1 + j;
        assert(v@.skip(p as int).skip(1 + j) =~= v@.skip(q as int));
    }
    if !(i > 0 || j > 0) {
        return false;
    }
    if q == v.len() {
        return true;
    }
    assert(v@.skip(q as int)[0] == v@[q as int]);
    if ascii_lower_char(v[q]) != 'e' {
        return false;
    }
    let s = sign_len(v, q + 1);
    assert(v@.skip(q as int).drop_first() =~= v@.skip(q + 1));
    let k = count_digits(v, q + 1 + s);
    assert(v@.skip(q + 1).skip(s as int) =~= v@.skip(q + 1 + s));
    q + 1 + s < v.len() && q + 1 + s + k == v.len()
}

/// Whether `f64::from_str` accepts `v` (see [`float_literal`]).
pub fn is_float_literal(v: &[char]) -> (r: bool)
    ensures
        r == float_literal(v@),
{
    let s = sign_len(v, 0);
    assert(v@.skip(0) =~= v@);
    let b = subvec(v, s, v.len());
    assert(b@ =~= v@.skip(s as int));
    let inf = chars_of("inf");
    let infinity = chars_of("infinity");
    let nan = chars_of("nan");
    if lower_eq_chars(b.as_slice(), inf.as_slice()) || lower_eq_chars(
        b.as_slice(),
        infinity.as_slice(),
    ) || lower_eq_chars(b.as_slice(), nan.as_slice()) {
        return true;
    }
    is_decimal_number(v, s)
}

} // verus!

verus! {

/// What `ParseIntError` displays for each kind.
pub open spec fn int_error_text(e: IntParseError) -> Seq<char> {
    match e {
        IntParseError::Empty => "cannot parse integer from empty string"@,
        IntParseError::InvalidDigit => "invalid digit found in string"@,
        IntParseError::PosOverflow => "number too large to fit in target type"@,
        IntParseError::NegOverflow => "number too small to fit in target type"@,
    }
}

/// The message of an integer parse failure.
pub fn int_error_message(e: IntParseError) -> (r: String)
    ensures
        r@ == int_error_text(e),
{
    match e {
        IntParseError::Empty => String::from_str("cannot parse integer from empty string"),
        IntParseError::InvalidDigit => String::from_str("invalid digit found in string"),
        IntParseError::PosOverflow => String::from_str("number too large to fit in target type"),
        IntParseError::NegOverflow => String::from_str("number too small to fit in target type"),
    }
}

/// `prefix` followed by `rest`, as an owned string.
pub fn concat_str(prefix: &str, rest: &str) -> (r: String)
    ensures
        r@ == prefix@ + rest@,
{
    let s = String::from_str(prefix);
    s.concat(rest)
}

} // verus!

verus! {

pub proof fn lemma_ws_bounds(s: Seq<char>)
    ensures
        0 <= lead_ws(s) <= s.len(),
        0 <= trail_ws(s) <= s.len(),
        trim_start(s).len() <= s.len(),
        trim(s).len() <= s.len(),
    decreases s.len(),
{
    if s.len() > 0 {
        lemma_ws_bounds(s.drop_first());
        lemma_ws_bounds(s.drop_last());
    }
    let t = trim_start(s);
    if t.len() > 0 {
        lemma_ws_bounds_trail(t);
    }
}

proof fn lemma_ws_bounds_trail(s: Seq<char>)
    ensures
        0 <= trail_ws(s) <= s.len(),
    decreases s.len(),
{
    if s.len() > 0 {
        lemma_ws_bounds_trail(s.drop_last());
    }
}

} // verus!

verus! {

/// Number of leading non-whitespace characters.
pub open spec fn word_len(s: Seq<char>) -> int
    decreases s.len(),
{
    if s.len() > 0 && !is_whitespace(s[0]) {
        1 + word_len(s.drop_first())
    } else {
        0
    }
}

pub proof fn lemma_word_len_unique(s: Seq<char>, i: int)
    requires
        0 <= i <= s.len(),
        i < s.len() ==> is_whitespace(s[i]),
        forall|j: int| 0 <= j < i ==> !is_whitespace(s[j]),
    ensures
        word_len(s) == i,
    decreases s.len(),
{
    if s.len() > 0 && i > 0 {
        assert forall|j: int| 0 <= j < i - 1 implies !is_whitespace(s.drop_first()[j]) by {
            assert(s.drop_first()[j] == s[j + 1]);
        }
        lemma_word_len_unique(s.drop_first(), i - 1);
    }
}

pub proof fn lemma_word_len_bounds(s: Seq<char>)
    ensures
        0 <= word_len(s) <= s.len(),
    decreases s.len(),
{
    if s.len() > 0 {
        lemma_word_len_bounds(s.drop_first());
    }
}

/// The whitespace-separated words of `s` (`str::split_whitespace`).
pub open spec fn words_of(s: Seq<char>) -> Seq<Seq<char>>
    decreases s.len(),
{
    let t = trim_start(s);
    proof {
        lemma_ws_bounds(s);
        lemma_word_len_bounds(t);
    }
    if t.len() == 0 {
        seq![]
    } else if word_len(t) == 0 {
        seq![]
    } else {
        seq![t.take(word_len(t))] + words_of(t.skip(word_len(t)))
    }
}

/// Splits `v` into whitespace-separated words (see [`words_of`]).
pub fn split_words(v: &[char]) -> (r: Vec<Vec<char>>)
    ensures
        views_of(r@) == words_of(v@),
{
    let mut out: Vec<Vec<char>> = Vec::new();
    let mut rest: Vec<char> = subvec(v, 0, v.len());
    assert(rest@ =~= v@);
    assert(views_of(out@) + words_of(rest@) =~= words_of(v@));
    loop
        invariant
            words_of(v@) == views_of(out@) + words_of(rest@),
        decreases rest@.len(),
    {
        let t = trim_start_chars(rest.as_slice());
        proof {
            lemma_ws_bounds(rest@);
        }
        if t.len() == 0 {
            assert(words_of(rest@) =~= Seq::<Seq<char>>::empty());
            assert(views_of(out@) + words_of(rest@) =~= views_of(out@));
            return out;
        }
        let mut k: usize = 0;
        while k < t.len() && !char_is_whitespace(t[k])
            invariant
                k <= t@.len(),
                forall|j: int| 0 <= j < k ==> !is_whitespace(t@[j]),
            decreases t.len() - k,
        {
            k = k + 1;
        }
        proof {
            lemma_word_len_unique(t@, k as int);
        }
        if k == 0 {
            assert(lead_ws(rest@) < rest@.len());
            assert(t@ =~= rest@.skip(lead_ws(rest@)));
            assert(false) by {
                lemma_lead_ws_first_non_ws(rest@);
            }
        }
        let word = subvec(t.as_slice(), 0, k);
        let next = subvec(t.as_slice(), k, t.len());
        assert(word@ =~= t@.take(k as int));
        assert(next@ =~= t@.skip(k as int));
        let ghost before = out@;
        out.push(word);
        assert(views_of(out@) =~= views_of(before).push(word@));
        assert(views_of(out@) + words_of(next@) =~= views_of(before) + (seq![word@] + words_of(
            next@,
        )));
        rest = next;
    }
}

pub proof fn lemma_lead_ws_first_non_ws(s: Seq<char>)
    ensures
        lead_ws(s) < s.len() ==> !is_whitespace(s[lead_ws(s)]),
    decreases s.len(),
{
    if s.len() > 0 && is_whitespace(s[0]) {
        lemma_lead_ws_first_non_ws(s.drop_first());
        lemma_ws_bounds(s.drop_first());
    }
}

} // verus!

verus! {

/// The pieces of `s` between occurrences of `c`, as `str::split` yields them:
/// always at least one piece, and an empty piece at each end that `c`
/// touches.
pub open spec fn split_on(s: Seq<char>, c: char) -> Seq<Seq<char>>
    decreases s.len(),
{
    let i = first_index(s, c);
    proof {
        lemma_first_index(s, c);
    }
    if i < s.len() {
        seq![s.take(i)] + split_on(s.skip(i + 1), c)
    } else {
        seq![s]
    }
}

/// Splits `v` at each `c` (see [`split_on`]).
pub fn split_char(v: &[char], c: char) -> (r: Vec<Vec<char>>)
    ensures
        views_of(r@) == split_on(v@, c),
{
    let n = v.len();
    let mut out: Vec<Vec<char>> = Vec::new();
    let mut pos: usize = 0;
    assert(v@.skip(0) =~= v@);
    assert(views_of(out@) + split_on(v@, c) =~= split_on(v@, c));
    loop
        invariant
            n == v@.len(),
            pos <= n,
            split_on(v@, c) == views_of(out@) + split_on(v@.skip(pos as int), c),
        decreases n - pos,
    {
        let rest = &v[pos..n];
        assert(rest@ == v@.skip(pos as int));
        proof {
            lemma_first_index(rest@, c);
        }
        match find_char(rest, c) {
            Some(k) => {
                let piece = subvec(rest, 0, k);
                let ghost before = out@;
                out.push(piece);
                assert(views_of(out@) =~= views_of(before).push(piece@));
                assert(rest@.skip(k + 1) =~= v@.skip(pos + k + 1));
                assert(views_of(before) + split_on(rest@, c) =~= views_of(out@) + split_on(
                    rest@.skip(k + 1),
                    c,
                ));
                pos = pos + k + 1;
            },
            None => {
                let piece = subvec(rest, 0, rest.len());
                let ghost before = out@;
                out.push(piece);
                assert(views_of(out@) =~= views_of(before).push(piece@));
                assert(piece@ =~= rest@);
                assert(views_of(before) + split_on(rest@, c) =~= views_of(out@));
                return out;
            },
        }
    }
}

/// `s` with every `from` replaced by `to`.
pub open spec fn replace_char(s: Seq<char>, from: char, to: char) -> Seq<char> {
    s.map_values(|x: char| if x == from { to } else { x })
}

/// Replaces every `from` in `v` by `to` (see [`replace_char`]).
pub fn replace_chars(v: &[char], from: char, to: char) -> (r: Vec<char>)
    ensures
        r@ == replace_char(v@, from, to),
{
    let mut r: Vec<char> = Vec::new();
    let mut i: usize = 0;
    while i < v.len()
        invariant
            i <= v@.len(),
            r@ == replace_char(v@.take(i as int), from, to),
        decreases v.len() - i,
    {
        let x = v[i];
        r.push(if x == from { to } else { x });
        assert(v@.take(i + 1) =~= v@.take(i as int).push(x));
        assert(r@ =~= replace_char(v@.take(i + 1), from, to));
        i = i + 1;
    }
    assert(v@.take(i as int) =~= v@);
    r
}

} // verus!
