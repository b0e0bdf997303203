//! Byte-level text helpers shared by the parser and the response writer.
use vstd::prelude::*;

verus! {

broadcast use vstd::string::group_string_axioms;

/// The bytes of an ASCII text.
pub open spec fn ascii(s: Seq<char>) -> Seq<u8> {
    s.map_values(|c: char| c as u8)
}

/// The line terminator used on the wire.
pub open spec fn crlf() -> Seq<u8> {
    seq![13u8, 10u8]
}

/// The one-byte whitespace characters: U+0009 to U+000D and U+0020.
pub open spec fn is_ws(b: u8) -> bool {
    b == 32 || b == 9 || b == 10 || b == 11 || b == 12 || b == 13
}

/// The UTF-8 encodings of the two-byte whitespace characters U+0085 and U+00A0.
pub open spec fn is_ws2(a: u8, b: u8) -> bool {
    a == 0xC2 && (b == 0x85 || b == 0xA0)
}

/// The UTF-8 encodings of the three-byte whitespace characters: U+1680, U+2000 to U+200A,
/// U+2028, U+2029, U+202F, U+205F and U+3000.
pub open spec fn is_ws3(a: u8, b: u8, c: u8) -> bool {
    (a == 0xE1 && b == 0x9A && c == 0x80) || (a == 0xE2 && b == 0x80 && ((0x80 <= c <= 0x8A)
        || c == 0xA8 || c == 0xA9 || c == 0xAF)) || (a == 0xE2 && b == 0x81 && c == 0x9F) || (a
        == 0xE3 && b == 0x80 && c == 0x80)
}

/// The byte length of the whitespace character that `s` starts with, 0 when it starts with
/// none. Whitespace is Unicode's White_Space, encoded in UTF-8.
pub open spec fn lead_ws(s: Seq<u8>) -> int {
    if s.len() >= 1 && is_ws(s[0]) {
        1
    } else if s.len() >= 2 && is_ws2(s[0], s[1]) {
        2
    } else if s.len() >= 3 && is_ws3(s[0], s[1], s[2]) {
        3
    } else {
        0
    }
}

/// The byte length of the whitespace character that `s` ends with, 0 when it ends with none.
pub open spec fn trail_ws(s: Seq<u8>) -> int {
    let n = s.len() as int;
    if n >= 1 && is_ws(s[n - 1]) {
        1
    } else if n >= 2 && is_ws2(s[n - 2], s[n - 1]) {
        2
    } else if n >= 3 && is_ws3(s[n - 3], s[n - 2], s[n - 1]) {
        3
    } else {
        0
    }
}

/// ASCII lower case of one byte; other bytes stay as they are.
pub open spec fn lower(b: u8) -> u8 {
    if 65 <= b <= 90 {
        (b + 32) as u8
    } else {
        b
    }
}

/// The case-folded form of a header name: two names match when their folded forms are equal.
pub open spec fn fold_case(s: Seq<u8>) -> Seq<u8> {
    s.map_values(|b: u8| lower(b))
}

/// `s` without its leading whitespace.
pub open spec fn lstrip(s: Seq<u8>) -> Seq<u8>
    decreases s.len(),
{
    if lead_ws(s) > 0 {
        lstrip(s.subrange(lead_ws(s), s.len() as int))
    } else {
        s
    }
}

/// `s` without its trailing whitespace.
pub open spec fn rstrip(s: Seq<u8>) -> Seq<u8>
    decreases s.len(),
{
    if trail_ws(s) > 0 {
        rstrip(s.subrange(0, s.len() - trail_ws(s)))
    } else {
        s
    }
}

/// `s` without surrounding whitespace, as `str::trim` cuts it from UTF-8 text.
pub open spec fn trim(s: Seq<u8>) -> Seq<u8> {
    rstrip(lstrip(s))
}

/// The decimal digits of `n`, without leading zeros.
pub open spec fn decimal(n: nat) -> Seq<u8>
    decreases n,
{
    if n < 10 {
        seq![(48 + n) as u8]
    } else {
        decimal(n / 10).push((48 + n % 10) as u8)
    }
}

pub fn lower_byte(b: u8) -> (r: u8)
    ensures
        r == lower(b),
{
    if 65 <= b && b <= 90 {
        b + 32
    } else {
        b
    }
}

pub fn is_ws_byte(b: u8) -> (r: bool)
    ensures
        r == is_ws(b),
{
    b == 32 || b == 9 || b == 10 || b == 11 || b == 12 || b == 13
}

fn is_ws2_bytes(a: u8, b: u8) -> (r: bool)
    ensures
        r == is_ws2(a, b),
{
    a == 0xC2 && (b == 0x85 || b == 0xA0)
}

fn is_ws3_bytes(a: u8, b: u8, c: u8) -> (r: bool)
    ensures
        r == is_ws3(a, b, c),
{
    (a == 0xE1 && b == 0x9A && c == 0x80) || (a == 0xE2 && b == 0x80 && ((0x80 <= c && c
        <= 0x8A) || c == 0xA8 || c == 0xA9 || c == 0xAF)) || (a == 0xE2 && b == 0x81 && c
        == 0x9F) || (a == 0xE3 && b == 0x80 && c == 0x80)
}

/// The length of the whitespace character that `s[lo..hi]` starts with.
fn lead_ws_at(s: &[u8], lo: usize, hi: usize) -> (r: usize)
    requires
        lo <= hi <= s@.len(),
    ensures
        r as int == lead_ws(s@.subrange(lo as int, hi as int)),
{
    let n = hi - lo;
    if n >= 1 && is_ws_byte(s[lo]) {
        1
    } else if n >= 2 && is_ws2_bytes(s[lo], s[lo + 1]) {
        2
    } else if n >= 3 && is_ws3_bytes(s[lo], s[lo + 1], s[lo + 2]) {
        3
    } else {
        0
    }
}

/// The length of the whitespace character that `s[lo..hi]` ends with.
fn trail_ws_at(s: &[u8], lo: usize, hi: usize) -> (r: usize)
    requires
        lo <= hi <= s@.len(),
    ensures
        r as int == trail_ws(s@.subrange(lo as int, hi as int)),
{
    let n = hi - lo;
    if n >= 1 && is_ws_byte(s[hi - 1]) {
        1
    } else if n >= 2 && is_ws2_bytes(s[hi - 2], s[hi - 1]) {
        2
    } else if n >= 3 && is_ws3_bytes(s[hi - 3], s[hi - 2], s[hi - 1]) {
        3
    } else {
        0
    }
}

/// Appends `s` to `out`.
pub fn append_bytes(out: &mut Vec<u8>, s: &[u8])
    ensures
        final(out)@ == old(out)@ + s@,
{
    let mut i: usize = 0;
    while i < s.len()
        invariant
            i <= s@.len(),
            out@ == old(out)@ + s@.subrange(0, i as int),
        decreases s@.len() - i,
    {
        out.push(s[i]);
        i = i + 1;
        assert(out@ =~= old(out)@ + s@.subrange(0, i as int));
    }
    assert(s@.subrange(0, s@.len() as int) =~= s@);
}

/// A copy of `s[lo..hi]`.
pub fn copy_range(s: &[u8], lo: usize, hi: usize) -> (r: Vec<u8>)
    requires
        lo <= hi <= s@.len(),
    ensures
        r@ == s@.subrange(lo as int, hi as int),
{
    let mut r: Vec<u8> = Vec::new();
    let mut i: usize = lo;
    while i < hi
        invariant
            lo <= i <= hi <= s@.len(),
            r@ == s@.subrange(lo as int, i as int),
        decreases hi - i,
    {
        r.push(s[i]);
        i = i + 1;
        assert(r@ =~= s@.subrange(lo as int, i as int));
    }
    r
}

/// The bounds of `s[lo..hi]` once its surrounding whitespace is cut off.
pub fn trim_bounds(s: &[u8], lo: usize, hi: usize) -> (r: (usize, usize))
    requires
        lo <= hi <= s@.len(),
    ensures
        lo <= r.0 <= r.1 <= hi,
        s@.subrange(r.0 as int, r.1 as int) == trim(s@.subrange(lo as int, hi as int)),
{
    let ghost t = s@.subrange(lo as int, hi as int);
    assert(s@.subrange(lo as int, hi as int) =~= t);
    let mut a: usize = lo;
    let mut k: usize = lead_ws_at(s, a, hi);
    while k > 0
        invariant
            lo <= a <= hi <= s@.len(),
            k as int == lead_ws(s@.subrange(a as int, hi as int)),
            lstrip(t) == lstrip(s@.subrange(a as int, hi as int)),
        decreases hi - a,
    {
        assert(s@.subrange(a as int, hi as int).subrange(k as int, hi - a) =~= s@.subrange(
            a + k,
            hi as int,
        ));
        a = a + k;
        k = lead_ws_at(s, a, hi);
    }
    let ghost u = s@.subrange(a as int, hi as int);
    assert(lstrip(u) == u);
    let mut b: usize = hi;
    let mut m: usize = trail_ws_at(s, a, b);
    while m > 0
        invariant
            lo <= a <= b <= hi <= s@.len(),
            m as int == trail_ws(s@.subrange(a as int, b as int)),
            rstrip(u) == rstrip(s@.subrange(a as int, b as int)),
        decreases b,
    {
        assert(s@.subrange(a as int, b as int).subrange(0, b - a - m) =~= s@.subrange(
            a as int,
            b - m,
        ));
        b = b - m;
        m = trail_ws_at(s, a, b);
    }
    (a, b)
}

/// Whether `s[lo..hi]`, folded to lower case, equals `lit` (given in lower case).
pub fn eq_folded(s: &[u8], lo: usize, hi: usize, lit: &[u8]) -> (r: bool)
    requires
        lo <= hi <= s@.len(),
    ensures
        r == (fold_case(s@.subrange(lo as int, hi as int)) == lit@),
{
    let ghost f = fold_case(s@.subrange(lo as int, hi as int));
    if hi - lo != lit.len() {
        assert(f.len() != lit@.len());
        return false;
    }
    let mut i: usize = 0;
    while i < lit.len()
        invariant
            lo <= hi <= s@.len(),
            hi - lo == lit@.len(),
            i <= lit@.len(),
            f == fold_case(s@.subrange(lo as int, hi as int)),
            forall|k: int| 0 <= k < i ==> f[k] == lit@[k],
        decreases lit@.len() - i,
    {
        if lower_byte(s[lo + i]) != lit[i] {
            assert(f[i as int] != lit@[i as int]);
            return false;
        }
        i = i + 1;
    }
    assert(f =~= lit@);
    true
}

/// Appends the decimal digits of `n` to `out`.
pub fn append_decimal(out: &mut Vec<u8>, n: u64)
    ensures
        final(out)@ == old(out)@ + decimal(n as nat),
    decreases n,
{
    if n >= 10 {
        append_decimal(out, n / 10);
    }
    out.push(48 + (n % 10) as u8);
    assert(out@ =~= old(out)@ + decimal(n as nat));
}

/// The bytes of an ASCII string literal.
pub fn ascii_bytes(s: &'static str) -> (r: &'static [u8])
    requires
        vstd::string::is_ascii(s),
    ensures
        r@ == ascii(s@),
{
    let r = s.as_bytes();
    assert(r@ =~= ascii(s@));
    r
}

} // verus!
