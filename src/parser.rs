//! Parsing of a call-setup request: request line, singular headers, the ordered
//! routing-path (`Via`) and record-route hops, and the body.
use vstd::prelude::*;
use crate::text::{ascii, trim, fold_case, copy_range, trim_bounds, eq_folded, ascii_bytes};
use crate::headers::HeaderSet;

verus! {

broadcast use vstd::string::group_string_axioms;

/// First index in `[i, e)` where `s` holds `c`, or `e` when there is none.
pub open spec fn find(s: Seq<u8>, c: u8, i: int, e: int) -> int
    decreases e - i,
{
    if i >= e {
        e
    } else if s[i] == c {
        i
    } else {
        find(s, c, i + 1, e)
    }
}

pub proof fn lemma_find_bounds(s: Seq<u8>, c: u8, i: int, e: int)
    requires
        i <= e,
    ensures
        i <= find(s, c, i, e) <= e,
    decreases e - i,
{
    if i < e && s[i] != c {
        lemma_find_bounds(s, c, i + 1, e);
    }
}

/// A line without the carriage return that ended it.
pub open spec fn strip_cr(l: Seq<u8>) -> Seq<u8> {
    if l.len() > 0 && l.last() == 13 {
        l.drop_last()
    } else {
        l
    }
}

/// The lines of `s` from position `i` on: split at each line feed, each without its carriage return.
pub open spec fn lines_from(s: Seq<u8>, i: int) -> Seq<Seq<u8>>
    decreases s.len() + 1 - i,
    via lines_from_decreases
{
    if 0 <= i < s.len() {
        let j = find(s, 10u8, i, s.len() as int);
        seq![strip_cr(s.subrange(i, j))] + lines_from(s, j + 1)
    } else {
        Seq::empty()
    }
}

#[via_fn]
proof fn lines_from_decreases(s: Seq<u8>, i: int) {
    if 0 <= i < s.len() {
        lemma_find_bounds(s, 10u8, i, s.len() as int);
    }
}

/// The bytes that follow the first empty line at or after position `i`; empty when there is none.
pub open spec fn body_from(s: Seq<u8>, i: int) -> Seq<u8>
    decreases s.len() + 1 - i,
    via body_from_decreases
{
    if 0 <= i < s.len() {
        let j = find(s, 10u8, i, s.len() as int);
        if strip_cr(s.subrange(i, j)).len() == 0 {
            if j < s.len() {
                s.subrange(j + 1, s.len() as int)
            } else {
                Seq::empty()
            }
        } else {
            body_from(s, j + 1)
        }
    } else {
        Seq::empty()
    }
}

#[via_fn]
proof fn body_from_decreases(s: Seq<u8>, i: int) {
    if 0 <= i < s.len() {
        lemma_find_bounds(s, 10u8, i, s.len() as int);
    }
}

/// The lines before the first empty one.
pub open spec fn until_blank(ls: Seq<Seq<u8>>) -> Seq<Seq<u8>>
    decreases ls.len(),
{
    if ls.len() == 0 || ls[0].len() == 0 {
        Seq::empty()
    } else {
        seq![ls[0]] + until_blank(ls.drop_first())
    }
}

/// The message head: the request line followed by the header lines.
pub open spec fn head_lines(s: Seq<u8>) -> Seq<Seq<u8>> {
    until_blank(lines_from(s, 0))
}

/// The header lines: the head without its request line.
pub open spec fn header_lines(s: Seq<u8>) -> Seq<Seq<u8>> {
    head_lines(s).drop_first()
}

/// The position of the first colon of a line, or its length when it has none.
pub open spec fn colon(l: Seq<u8>) -> int {
    find(l, 58u8, 0, l.len() as int)
}

pub open spec fn has_colon(l: Seq<u8>) -> bool {
    colon(l) < l.len()
}

/// The name of a header line, trimmed.
pub open spec fn line_name(l: Seq<u8>) -> Seq<u8> {
    trim(l.subrange(0, colon(l)))
}

/// The value of a header line: all after its first colon, trimmed.
pub open spec fn line_value(l: Seq<u8>) -> Seq<u8> {
    trim(l.subrange(colon(l) + 1, l.len() as int))
}

/// The routing-path header and its short alias.
pub open spec fn is_via_name(n: Seq<u8>) -> bool {
    fold_case(n) == ascii("via"@) || fold_case(n) == ascii("v"@)
}

pub open spec fn is_record_route_name(n: Seq<u8>) -> bool {
    fold_case(n) == ascii("record-route"@)
}

/// The routing-path values of header lines, in the order they came.
pub open spec fn via_values(hs: Seq<Seq<u8>>) -> Seq<Seq<u8>>
    decreases hs.len(),
{
    if hs.len() == 0 {
        Seq::empty()
    } else {
        let l = hs.last();
        if has_colon(l) && is_via_name(line_name(l)) {
            via_values(hs.drop_last()).push(line_value(l))
        } else {
            via_values(hs.drop_last())
        }
    }
}

/// The record-route values of header lines, in the order they came.
pub open spec fn record_route_values(hs: Seq<Seq<u8>>) -> Seq<Seq<u8>>
    decreases hs.len(),
{
    if hs.len() == 0 {
        Seq::empty()
    } else {
        let l = hs.last();
        if has_colon(l) && is_record_route_name(line_name(l)) {
            record_route_values(hs.drop_last()).push(line_value(l))
        } else {
            record_route_values(hs.drop_last())
        }
    }
}

/// The singular headers of header lines, keyed by folded name; the last line for a name wins.
pub open spec fn singular_headers(hs: Seq<Seq<u8>>) -> Map<Seq<u8>, Seq<u8>>
    decreases hs.len(),
{
    if hs.len() == 0 {
        Map::empty()
    } else {
        let l = hs.last();
        let n = line_name(l);
        if has_colon(l) && !is_via_name(n) && !is_record_route_name(n) {
            singular_headers(hs.drop_last()).insert(fold_case(n), line_value(l))
        } else {
            singular_headers(hs.drop_last())
        }
    }
}

/// The method: the request line up to its first space.
pub open spec fn method_of(l: Seq<u8>) -> Seq<u8> {
    l.subrange(0, find(l, 32u8, 0, l.len() as int))
}

/// A request can be answered only when it has a head and at least one routing-path value.
pub open spec fn routable(s: Seq<u8>) -> bool {
    head_lines(s).len() > 0 && via_values(header_lines(s)).len() > 0
}

/// The views of a sequence of byte vectors.
pub open spec fn seqs(v: Seq<Vec<u8>>) -> Seq<Seq<u8>> {
    v.map_values(|x: Vec<u8>| x@)
}

/// A parsed call-setup request.
pub struct ParsedRequest {
    pub method: Vec<u8>,
    pub headers: HeaderSet,
    pub via: Vec<Vec<u8>>,
    pub record_route: Vec<Vec<u8>>,
    pub body: Vec<u8>,
}

pub struct RequestView {
    pub method: Seq<u8>,
    pub headers: Map<Seq<u8>, Seq<u8>>,
    pub via: Seq<Seq<u8>>,
    pub record_route: Seq<Seq<u8>>,
    pub body: Seq<u8>,
}

impl View for ParsedRequest {
    type V = RequestView;

    open spec fn view(&self) -> RequestView {
        RequestView {
            method: self.method@,
            headers: self.headers@,
            via: seqs(self.via@),
            record_route: seqs(self.record_route@),
            body: self.body@,
        }
    }
}

/// What a routable message parses to.
pub open spec fn request_of(s: Seq<u8>) -> RequestView {
    RequestView {
        method: method_of(head_lines(s)[0]),
        headers: singular_headers(header_lines(s)),
        via: via_values(header_lines(s)),
        record_route: record_route_values(header_lines(s)),
        body: body_from(s, 0),
    }
}

/// Position of the first `c` in `s[lo..hi]`, or `hi`.
pub fn find_byte(s: &[u8], c: u8, lo: usize, hi: usize) -> (r: usize)
    requires
        lo <= hi <= s@.len(),
    ensures
        r as int == find(s@, c, lo as int, hi as int),
        lo <= r <= hi,
{
    let mut k: usize = lo;
    while k < hi && s[k] != c
        invariant
            lo <= k <= hi <= s@.len(),
            find(s@, c, lo as int, hi as int) == find(s@, c, k as int, hi as int),
        decreases hi - k,
    {
        k = k + 1;
    }
    k
}

/// The line `s[i..j]` without a final carriage return.
fn line_at(s: &[u8], i: usize, j: usize) -> (r: Vec<u8>)
    requires
        i <= j <= s@.len(),
    ensures
        r@ == strip_cr(s@.subrange(i as int, j as int)),
{
    if j > i && s[j - 1] == 13 {
        let r = copy_range(s, i, j - 1);
        assert(r@ =~= strip_cr(s@.subrange(i as int, j as int)));
        r
    } else {
        copy_range(s, i, j)
    }
}

/// Files one header line under its kind.
fn add_line(
    line: &Vec<u8>,
    headers: &mut HeaderSet,
    via: &mut Vec<Vec<u8>>,
    record_route: &mut Vec<Vec<u8>>,
)
    ensures
        final(headers)@ == (if has_colon(line@) && !is_via_name(line_name(line@))
            && !is_record_route_name(line_name(line@)) {
            old(headers)@.insert(fold_case(line_name(line@)), line_value(line@))
        } else {
            old(headers)@
        }),
        seqs(final(via)@) == (if has_colon(line@) && is_via_name(line_name(line@)) {
            seqs(old(via)@).push(line_value(line@))
        } else {
            seqs(old(via)@)
        }),
        seqs(final(record_route)@) == (if has_colon(line@) && is_record_route_name(
            line_name(line@),
        ) {
            seqs(old(record_route)@).push(line_value(line@))
        } else {
            seqs(old(record_route)@)
        }),
{
    proof {
        reveal_strlit("via");
        reveal_strlit("v");
        reveal_strlit("record-route");
        assert(ascii("via"@).len() == 3);
        assert(ascii("v"@).len() == 1);
        assert(ascii("record-route"@).len() == 12);
    }
    let n = line.len();
    let c = find_byte(line.as_slice(), 58, 0, n);
    if c == n {
        return;
    }
    let (a, b) = trim_bounds(line.as_slice(), 0, c);
    let (va, vb) = trim_bounds(line.as_slice(), c + 1, n);
    let value = copy_range(line.as_slice(), va, vb);
    if eq_folded(line.as_slice(), a, b, ascii_bytes("via")) || eq_folded(
        line.as_slice(),
        a,
        b,
        ascii_bytes("v"),
    ) {
        via.push(value);
        assert(seqs(via@) =~= seqs(old(via)@).push(line_value(line@)));
    } else if eq_folded(line.as_slice(), a, b, ascii_bytes("record-route")) {
        record_route.push(value);
        assert(seqs(record_route@) =~= seqs(old(record_route)@).push(line_value(line@)));
    } else {
        let name = copy_range(line.as_slice(), a, b);
        headers.insert(name.as_slice(), value);
    }
}

proof fn lemma_lines_step(s: Seq<u8>, i: int)
    requires
        0 <= i < s.len(),
    ensures
        lines_from(s, i) == seq![strip_cr(s.subrange(i, find(s, 10u8, i, s.len() as int)))]
            + lines_from(s, find(s, 10u8, i, s.len() as int) + 1),
{
}

/// Parses a call-setup request; `None` when it has no routing-path header to answer along.
pub fn parse_complex_headers(request: &[u8]) -> (r: Option<ParsedRequest>)
    ensures
        r is Some <==> routable(request@),
        r is Some ==> r->Some_0@ == request_of(request@),
{
    let ghost s = request@;
    let n = request.len();
    if n == 0 {
        return None;
    }
    let j0 = find_byte(request, 10, 0, n);
    let first = line_at(request, 0, j0);
    proof {
        lemma_lines_step(s, 0);
    }
    let ghost rest = lines_from(s, j0 + 1);
    assert(lines_from(s, 0).drop_first() =~= rest);
    if first.len() == 0 {
        return None;
    }
    assert(head_lines(s) == seq![first@] + until_blank(rest));
    assert(header_lines(s) =~= until_blank(rest));
    if j0 >= n {
        assert(header_lines(s).len() == 0);
        return None;
    }
    let sp = find_byte(first.as_slice(), 32, 0, first.len());
    let method = copy_range(first.as_slice(), 0, sp);
    let mut headers = HeaderSet::new();
    let mut via: Vec<Vec<u8>> = Vec::new();
    let mut record_route: Vec<Vec<u8>> = Vec::new();
    let mut i: usize = j0 + 1;
    let ghost mut done: Seq<Seq<u8>> = Seq::empty();
    proof {
        assert(done + until_blank(lines_from(s, i as int)) =~= until_blank(
            lines_from(s, i as int),
        ));
        assert(seqs(via@) =~= via_values(done));
        assert(seqs(record_route@) =~= record_route_values(done));
    }
    while i < n
        invariant
            0 < i <= n + 1,
            n == s.len(),
            s == request@,
            head_lines(s).len() > 0,
            method@ == method_of(head_lines(s)[0]),
            header_lines(s) == done + until_blank(lines_from(s, i as int)),
            body_from(s, 0) == body_from(s, i as int),
            headers@ == singular_headers(done),
            seqs(via@) == via_values(done),
            seqs(record_route@) == record_route_values(done),
        decreases n + 1 - i,
    {
        let j = find_byte(request, 10, i, n);
        let line = line_at(request, i, j);
        proof {
            lemma_lines_step(s, i as int);
            assert(lines_from(s, i as int).drop_first() =~= lines_from(s, j + 1));
        }
        if line.len() == 0 {
            let body = if j < n {
                copy_range(request, j + 1, n)
            } else {
                Vec::new()
            };
            assert(done =~= header_lines(s));
            let r = ParsedRequest { method, headers, via, record_route, body };
            if r.via.len() == 0 {
                return None;
            }
            assert(r@.body =~= body_from(s, 0));
            return Some(r);
        }
        add_line(&line, &mut headers, &mut via, &mut record_route);
        proof {
            let d2 = done.push(line@);
            assert(d2.drop_last() =~= done);
            assert(d2 + until_blank(lines_from(s, j + 1)) =~= done + until_blank(
                lines_from(s, i as int),
            ));
            done = d2;
        }
        if j >= n {
            assert(body_from(s, i as int) == body_from(s, j + 1));
            assert(body_from(s, j + 1) == Seq::<u8>::empty());
            assert(done =~= header_lines(s));
            let r = ParsedRequest { method, headers, via, record_route, body: Vec::new() };
            if r.via.len() == 0 {
                return None;
            }
            assert(r@.body =~= body_from(s, 0));
            return Some(r);
        }
        i = j + 1;
    }
    assert(done =~= header_lines(s));
    let r = ParsedRequest { method, headers, via, record_route, body: Vec::new() };
    if r.via.len() == 0 {
        return None;
    }
    assert(r@.body =~= body_from(s, 0));
    Some(r)
}

} // verus!
