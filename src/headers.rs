//! The singular headers of a request: a case-insensitive map from name to value.
use vstd::prelude::*;
use crate::text::{fold_case, lower_byte, copy_range};

verus! {

/// One stored header; `name` is kept in folded (lower) case.
pub struct Header {
    pub name: Vec<u8>,
    pub value: Vec<u8>,
}

/// The map that a list of stored headers stands for: a later entry overrides an earlier one.
pub open spec fn map_of(es: Seq<Header>) -> Map<Seq<u8>, Seq<u8>>
    decreases es.len(),
{
    if es.len() == 0 {
        Map::empty()
    } else {
        map_of(es.drop_last()).insert(es.last().name@, es.last().value@)
    }
}

/// Singular headers, looked up case-insensitively, with the last value set for a name winning.
pub struct HeaderSet {
    entries: Vec<Header>,
}

/// The value of a header in a map keyed by folded names, empty when it is absent.
pub open spec fn value_or_empty(m: Map<Seq<u8>, Seq<u8>>, name: Seq<u8>) -> Seq<u8> {
    if m.contains_key(fold_case(name)) {
        m[fold_case(name)]
    } else {
        Seq::empty()
    }
}

proof fn lemma_map_of_last_match(es: Seq<Header>, k: int, key: Seq<u8>)
    requires
        0 <= k < es.len(),
        es[k].name@ == key,
        forall|m: int| k < m < es.len() ==> es[m].name@ != key,
    ensures
        map_of(es).contains_key(key),
        map_of(es)[key] == es[k].value@,
    decreases es.len(),
{
    if k < es.len() - 1 {
        lemma_map_of_last_match(es.drop_last(), k, key);
    }
}

proof fn lemma_map_of_no_match(es: Seq<Header>, key: Seq<u8>)
    requires
        forall|m: int| 0 <= m < es.len() ==> es[m].name@ != key,
    ensures
        !map_of(es).contains_key(key),
    decreases es.len(),
{
    if es.len() > 0 {
        lemma_map_of_no_match(es.drop_last(), key);
    }
}

/// The folded form of a header name.
pub fn fold_name(s: &[u8]) -> (r: Vec<u8>)
    ensures
        r@ == fold_case(s@),
{
    let mut r: Vec<u8> = Vec::new();
    let mut i: usize = 0;
    while i < s.len()
        invariant
            i <= s@.len(),
            r@ == fold_case(s@.subrange(0, i as int)),
        decreases s@.len() - i,
    {
        r.push(lower_byte(s[i]));
        i = i + 1;
        assert(r@ =~= fold_case(s@.subrange(0, i as int)));
    }
    assert(s@.subrange(0, s@.len() as int) =~= s@);
    r
}

/// Whether two byte strings are equal.
pub fn bytes_equal(a: &[u8], b: &[u8]) -> (r: bool)
    ensures
        r == (a@ == b@),
{
    if a.len() != b.len() {
        return false;
    }
    let mut i: usize = 0;
    while i < a.len()
        invariant
            a@.len() == b@.len(),
            i <= a@.len(),
            forall|k: int| 0 <= k < i ==> a@[k] == b@[k],
        decreases a@.len() - i,
    {
        if a[i] != b[i] {
            return false;
        }
        i = i + 1;
    }
    assert(a@ =~= b@);
    true
}

impl View for HeaderSet {
    type V = Map<Seq<u8>, Seq<u8>>;

    closed spec fn view(&self) -> Map<Seq<u8>, Seq<u8>> {
        map_of(self.entries@)
    }
}

impl HeaderSet {
    /// An empty set.
    pub fn new() -> (r: HeaderSet)
        ensures
            r@ == Map::<Seq<u8>, Seq<u8>>::empty(),
    {
        HeaderSet { entries: Vec::new() }
    }

    /// Sets the value of `name`, replacing any value it had under any spelling of its case.
    pub fn insert(&mut self, name: &[u8], value: Vec<u8>)
        ensures
            final(self)@ == old(self)@.insert(fold_case(name@), value@),
    {
        let key = fold_name(name);
        let ghost old_entries = self.entries@;
        self.entries.push(Header { name: key, value });
        assert(self.entries@.drop_last() =~= old_entries);
    }

    /// The value of `name`, compared case-insensitively.
    pub fn get(&self, name: &[u8]) -> (r: Option<Vec<u8>>)
        ensures
            r is Some <==> self@.contains_key(fold_case(name@)),
            r is Some ==> r->Some_0@ == self@[fold_case(name@)],
    {
        let key = fold_name(name);
        let mut k: usize = self.entries.len();
        while k > 0
            invariant
                k <= self.entries@.len(),
                key@ == fold_case(name@),
                forall|m: int| k <= m < self.entries@.len() ==> self.entries@[m].name@ != key@,
            decreases k,
        {
            let e = &self.entries[k - 1];
            if bytes_equal(e.name.as_slice(), key.as_slice()) {
                proof {
                    lemma_map_of_last_match(self.entries@, k - 1, key@);
                }
                return Some(copy_range(e.value.as_slice(), 0, e.value.len()));
            }
            k = k - 1;
        }
        proof {
            lemma_map_of_no_match(self.entries@, key@);
        }
        None
    }

    /// The value of `name`, or an empty value when it is absent.
    pub fn get_or_empty(&self, name: &[u8]) -> (r: Vec<u8>)
        ensures
            r@ == value_or_empty(self@, name@),
    {
        match self.get(name) {
            Some(v) => v,
            None => Vec::new(),
        }
    }
}

} // verus!
