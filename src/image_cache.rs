use vstd::prelude::*;

use crate::file_utils::decimal;
use crate::file_utils::decimal_string;
use crate::models::{dim, ImageParams};
use lru::LruCache;
use std::num::NonZeroUsize;

verus! {

#[verifier::external_type_specification]
#[verifier::external_body]
#[verifier::reject_recursive_types(K)]
#[verifier::reject_recursive_types(V)]
#[verifier::reject_recursive_types(S)]
pub struct ExLruCache<K, V, S>(LruCache<K, V, S>);

#[verifier::external_type_specification]
#[verifier::external_body]
pub struct ExDefaultHasher(lru::DefaultHasher);

/// A cache entry as the model sees it: the key's characters and the bytes.
pub type Entry = (Seq<char>, Seq<u8>);

/// What an `LruCache` holds, most recently used first.
pub uninterp spec fn lru_entries(c: LruCache<String, Vec<u8>>) -> Seq<Entry>;

/// The capacity an `LruCache` was made with.
pub uninterp spec fn lru_capacity(c: LruCache<String, Vec<u8>>) -> nat;

/// No key occurs twice.
pub open spec fn unique_keys(es: Seq<Entry>) -> bool {
    forall|i: int, j: int| 0 <= i < es.len() && 0 <= j < es.len() && i != j ==> es[i].0 != es[j].0
}

pub open spec fn has_key(es: Seq<Entry>, k: Seq<char>) -> bool {
    exists|i: int| 0 <= i < es.len() && es[i].0 == k
}

/// The position of `k`, where it occurs.
pub open spec fn index_of(es: Seq<Entry>, k: Seq<char>) -> int {
    choose|i: int| 0 <= i < es.len() && es[i].0 == k
}

/// The bytes held under `k`, if any.
pub open spec fn lookup(es: Seq<Entry>, k: Seq<char>) -> Option<Seq<u8>> {
    if has_key(es, k) {
        Some(es[index_of(es, k)].1)
    } else {
        None
    }
}

/// The entries after a read of `k`: a present key moves to the front.
pub open spec fn after_get(es: Seq<Entry>, k: Seq<char>) -> Seq<Entry> {
    if has_key(es, k) {
        seq![es[index_of(es, k)]] + es.remove(index_of(es, k))
    } else {
        es
    }
}

/// The entries after `k` is written with `v`: a present key is overwritten and
/// moved to the front; a new key goes to the front, after the least recently
/// used entry (the last) is dropped when the cache is full.
pub open spec fn after_put(es: Seq<Entry>, cap: nat, k: Seq<char>, v: Seq<u8>) -> Seq<Entry> {
    if has_key(es, k) {
        seq![(k, v)] + es.remove(index_of(es, k))
    } else if es.len() == cap {
        seq![(k, v)] + es.drop_last()
    } else {
        seq![(k, v)] + es
    }
}

/// Relies on `LruCache::new`: an empty cache that holds at most `cap` items.
#[verifier::external_body]
fn lru_new(cap: usize) -> (r: LruCache<String, Vec<u8>>)
    requires
        cap > 0,
    ensures
        lru_entries(r) == Seq::<Entry>::empty(),
        lru_capacity(r) == cap,
{
    LruCache::new(NonZeroUsize::new(cap).unwrap())
}

/// Relies on `LruCache::get`: the value under the key, which becomes the most
/// recently used.
#[verifier::external_body]
fn lru_get(c: &mut LruCache<String, Vec<u8>>, k: &str) -> (r: Option<Vec<u8>>)
    ensures
        lru_capacity(*final(c)) == lru_capacity(*old(c)),
        lru_entries(*final(c)) == after_get(lru_entries(*old(c)), k@),
        match (r, lookup(lru_entries(*old(c)), k@)) {
            (Some(b), Some(m)) => b@ == m,
            (None, None) => true,
            _ => false,
        },
{
    c.get(k).cloned()
}

/// Relies on `LruCache::put`: the key is written and becomes the most recently
/// used; a new key in a full cache first evicts the least recently used one.
#[verifier::external_body]
fn lru_put(c: &mut LruCache<String, Vec<u8>>, k: String, v: Vec<u8>)
    ensures
        lru_capacity(*final(c)) == lru_capacity(*old(c)),
        lru_entries(*final(c)) == after_put(lru_entries(*old(c)), lru_capacity(*old(c)), k@, v@),
{
    c.put(k, v);
}

/// The fingerprint of a request: `file_name_width_height`, an absent dimension
/// written as 0.
pub open spec fn cache_key_of(name: Seq<char>, width: Option<u32>, height: Option<u32>) -> Seq<char> {
    name + seq!['_'] + decimal(dim(width) as nat) + seq!['_'] + decimal(dim(height) as nat)
}

/// A bounded, recency-ordered map from request fingerprints to image bytes.
pub struct ImageCache {
    cache: LruCache<String, Vec<u8>>,
}

impl ImageCache {
    /// The entries, most recently used first.
    pub closed spec fn entries(&self) -> Seq<Entry> {
        lru_entries(self.cache)
    }

    pub closed spec fn capacity(&self) -> nat {
        lru_capacity(self.cache)
    }

    /// Keys are unique and the entries stay within a positive capacity.
    pub open spec fn wf(&self) -> bool {
        &&& self.capacity() > 0
        &&& self.entries().len() <= self.capacity()
        &&& unique_keys(self.entries())
    }

    /// An empty cache of the given capacity.
    pub fn new(capacity: usize) -> (r: Self)
        requires
            capacity > 0,
        ensures
            r.wf(),
            r.capacity() == capacity,
            r.entries().len() == 0,
    {
        ImageCache { cache: lru_new(capacity) }
    }

    /// The bytes under `key`, which becomes the most recently used entry.
    pub fn get(&mut self, key: &str) -> (r: Option<Vec<u8>>)
        requires
            old(self).wf(),
        ensures
            final(self).wf(),
            final(self).capacity() == old(self).capacity(),
            final(self).entries() == after_get(old(self).entries(), key@),
            match (r, lookup(old(self).entries(), key@)) {
                (Some(b), Some(m)) => b@ == m,
                (None, None) => true,
                _ => false,
            },
    {
        let r = lru_get(&mut self.cache, key);
        proof { lemma_after_get_wf(old(self).entries(), key@); }
        r
    }

    /// Stores `value` under `key` as the most recently used entry.
    pub fn insert(&mut self, key: String, value: Vec<u8>)
        requires
            old(self).wf(),
        ensures
            final(self).wf(),
            final(self).capacity() == old(self).capacity(),
            final(self).entries() == after_put(old(self).entries(), old(self).capacity(), key@, value@),
    {
        proof { lemma_put_within_capacity(self.entries(), self.capacity(), key@, value@); }
        lru_put(&mut self.cache, key, value);
    }

    /// The fingerprint of a request.
    pub fn get_cache_id(params: &ImageParams) -> (r: String)
        ensures
            r@ == cache_key_of(params.file_name@, params.width, params.height),
    {
        let width = match params.width {
            Some(w) => w,
            None => 0,
        };
        let height = match params.height {
            Some(h) => h,
            None => 0,
        };
        let mut id = params.file_name.clone();
        proof { reveal_strlit("_"); }
        id.append("_");
        let w = decimal_string(width);
        id.append(w.as_str());
        id.append("_");
        let h = decimal_string(height);
        id.append(h.as_str());
        id
    }
}

/// A read keeps the keys unique and the count of entries unchanged.
pub proof fn lemma_after_get_wf(es: Seq<Entry>, k: Seq<char>)
    requires
        unique_keys(es),
    ensures
        unique_keys(after_get(es, k)),
        after_get(es, k).len() == es.len(),
{
    if has_key(es, k) {
        let i = index_of(es, k);
        let r = after_get(es, k);
        assert forall|a: int, b: int| 0 <= a < r.len() && 0 <= b < r.len() && a != b implies r[a].0 != r[b].0 by {
            let ia = if a == 0 { i } else if a - 1 < i { a - 1 } else { a };
            let ib = if b == 0 { i } else if b - 1 < i { b - 1 } else { b };
            assert(r[a] == es[ia]);
            assert(r[b] == es[ib]);
        }
    }
}

/// Writing a key never takes the cache beyond its capacity, and keeps keys unique.
pub proof fn lemma_put_within_capacity(es: Seq<Entry>, cap: nat, k: Seq<char>, v: Seq<u8>)
    requires
        unique_keys(es),
        es.len() <= cap,
        cap > 0,
    ensures
        unique_keys(after_put(es, cap, k, v)),
        after_put(es, cap, k, v).len() <= cap,
{
    let r = after_put(es, cap, k, v);
    if has_key(es, k) {
        let i = index_of(es, k);
        assert forall|a: int, b: int| 0 <= a < r.len() && 0 <= b < r.len() && a != b implies r[a].0 != r[b].0 by {
            let ia = if a == 0 { i } else if a - 1 < i { a - 1 } else { a };
            let ib = if b == 0 { i } else if b - 1 < i { b - 1 } else { b };
            if a != 0 { assert(r[a] == es[ia]); }
            if b != 0 { assert(r[b] == es[ib]); }
        }
    } else {
        let rest = if es.len() == cap { es.drop_last() } else { es };
        assert(r == seq![(k, v)] + rest);
        assert forall|a: int, b: int| 0 <= a < r.len() && 0 <= b < r.len() && a != b implies r[a].0 != r[b].0 by {
            if a != 0 { assert(r[a] == es[a - 1]); }
            if b != 0 { assert(r[b] == es[b - 1]); }
        }
    }
}


/// Bytes just written under a key are what a read of that key returns.
pub proof fn lemma_stored_bytes_are_served(es: Seq<Entry>, cap: nat, k: Seq<char>, v: Seq<u8>)
    requires
        unique_keys(es),
        es.len() <= cap,
        cap > 0,
    ensures
        lookup(after_put(es, cap, k, v), k) == Some(v),
{
    lemma_put_within_capacity(es, cap, k, v);
    let r = after_put(es, cap, k, v);
    assert(r[0].0 == k);
    assert(has_key(r, k));
    let i = index_of(r, k);
    assert(i == 0);
}

/// A new key written into a full cache evicts the least recently used entry
/// (the last) and keeps the cache at its capacity.
pub proof fn lemma_full_cache_evicts_least_recent(es: Seq<Entry>, cap: nat, k: Seq<char>, v: Seq<u8>)
    requires
        unique_keys(es),
        es.len() == cap,
        cap > 0,
        !has_key(es, k),
    ensures
        !has_key(after_put(es, cap, k, v), es.last().0),
        after_put(es, cap, k, v).len() == cap,
{
    let r = after_put(es, cap, k, v);
    let gone = es.last().0;
    assert forall|i: int| 0 <= i < r.len() implies r[i].0 != gone by {
        if i == 0 {
            assert(es[es.len() - 1].0 == gone);
        } else {
            assert(r[i] == es[i - 1]);
        }
    }
}


/// An absent dimension and an explicit zero give the same fingerprint.
pub proof fn lemma_absent_and_zero_share_key(name: Seq<char>)
    ensures
        cache_key_of(name, None, None) == cache_key_of(name, Some(0u32), Some(0u32)),
{
}

/// The entries after writing `ks[i]` with `vs[i]` for each `i` in turn.
pub open spec fn put_all(es: Seq<Entry>, cap: nat, ks: Seq<Seq<char>>, vs: Seq<Seq<u8>>) -> Seq<Entry>
    decreases ks.len(),
{
    if ks.len() == 0 || vs.len() == 0 {
        es
    } else {
        after_put(put_all(es, cap, ks.drop_last(), vs.drop_last()), cap, ks.last(), vs.last())
    }
}

/// Up to the capacity, distinct keys written into an empty cache are all kept,
/// the latest first.
pub proof fn lemma_put_all_keeps_order(cap: nat, ks: Seq<Seq<char>>, vs: Seq<Seq<u8>>)
    requires
        ks.len() == vs.len(),
        ks.len() <= cap,
        forall|i: int, j: int| 0 <= i < ks.len() && 0 <= j < ks.len() && i != j ==> ks[i] != ks[j],
    ensures
        put_all(Seq::empty(), cap, ks, vs).len() == ks.len(),
        forall|i: int| 0 <= i < ks.len() ==> #[trigger] put_all(Seq::empty(), cap, ks, vs)[i] == (ks[ks.len() - 1 - i], vs[vs.len() - 1 - i]),
    decreases ks.len(),
{
    if ks.len() > 0 {
        let ks0 = ks.drop_last();
        let vs0 = vs.drop_last();
        lemma_put_all_keeps_order(cap, ks0, vs0);
        let prev = put_all(Seq::empty(), cap, ks0, vs0);
        assert(!has_key(prev, ks.last())) by {
            if has_key(prev, ks.last()) {
                let i = choose|i: int| 0 <= i < prev.len() && prev[i].0 == ks.last();
                assert(prev[i].0 == ks0[ks0.len() - 1 - i]);
                assert(ks0[ks0.len() - 1 - i] == ks[ks0.len() - 1 - i]);
            }
        }
        let r = put_all(Seq::empty(), cap, ks, vs);
        assert(r == seq![(ks.last(), vs.last())] + prev);
        assert forall|i: int| 0 <= i < ks.len() implies #[trigger] r[i] == (ks[ks.len() - 1 - i], vs[vs.len() - 1 - i]) by {
            if i > 0 {
                assert(r[i] == prev[i - 1]);
                assert(prev[i - 1] == (ks0[ks0.len() - 1 - (i - 1)], vs0[vs0.len() - 1 - (i - 1)]));
            }
        }
    }
}

/// A cache never holds more entries than its capacity: writing `capacity + 1`
/// distinct keys into an empty cache leaves `capacity` entries; the first key
/// written, the least recently used, is gone, and every other key still holds
/// the bytes written under it.
pub proof fn lemma_capacity_plus_one_evicts_first(cap: nat, ks: Seq<Seq<char>>, vs: Seq<Seq<u8>>)
    requires
        cap > 0,
        ks.len() == vs.len(),
        ks.len() == cap + 1,
        forall|i: int, j: int| 0 <= i < ks.len() && 0 <= j < ks.len() && i != j ==> ks[i] != ks[j],
    ensures
        put_all(Seq::empty(), cap, ks, vs).len() == cap,
        !has_key(put_all(Seq::empty(), cap, ks, vs), ks[0]),
        forall|i: int| 1 <= i < ks.len() ==> lookup(put_all(Seq::empty(), cap, ks, vs), #[trigger] ks[i]) == Some(vs[i]),
{
    let ks0 = ks.drop_last();
    let vs0 = vs.drop_last();
    lemma_put_all_keeps_order(cap, ks0, vs0);
    let prev = put_all(Seq::empty(), cap, ks0, vs0);
    assert(prev[prev.len() - 1].0 == ks0[0]);
    assert forall|a: int, b: int| 0 <= a < prev.len() && 0 <= b < prev.len() && a != b implies prev[a].0 != prev[b].0 by {
        assert(prev[a].0 == ks0[ks0.len() - 1 - a]);
        assert(prev[b].0 == ks0[ks0.len() - 1 - b]);
    }
    assert(!has_key(prev, ks.last())) by {
        if has_key(prev, ks.last()) {
            let i = choose|i: int| 0 <= i < prev.len() && prev[i].0 == ks.last();
            assert(prev[i].0 == ks0[ks0.len() - 1 - i]);
        }
    }
    lemma_full_cache_evicts_least_recent(prev, cap, ks.last(), vs.last());
    lemma_put_within_capacity(prev, cap, ks.last(), vs.last());
    let r = put_all(Seq::empty(), cap, ks, vs);
    assert(r == seq![(ks.last(), vs.last())] + prev.drop_last());
    assert forall|i: int| 1 <= i < ks.len() implies lookup(r, #[trigger] ks[i]) == Some(vs[i]) by {
        if i == cap {
            lemma_lookup_at(r, 0);
        } else {
            let m = cap - i;
            assert(r[m] == prev[m - 1]);
            assert(prev[m - 1] == (ks0[ks0.len() - 1 - (m - 1)], vs0[vs0.len() - 1 - (m - 1)]));
            lemma_lookup_at(r, m);
        }
    }
}

/// With unique keys, the bytes under the key at position `j` are that entry's.
pub proof fn lemma_lookup_at(es: Seq<Entry>, j: int)
    requires
        unique_keys(es),
        0 <= j < es.len(),
    ensures
        lookup(es, es[j].0) == Some(es[j].1),
{
    assert(has_key(es, es[j].0));
    let i = index_of(es, es[j].0);
    assert(i == j);
}

/// Other requests in between leave a key's bytes in place: a read of any key
/// keeps them, and so does a write of another key unless it evicts this one
/// (a new key into a full cache whose least recently used key is this one).
pub proof fn lemma_other_requests_keep_bytes(es: Seq<Entry>, cap: nat, k: Seq<char>, other: Seq<char>, v: Seq<u8>)
    requires
        unique_keys(es),
        es.len() <= cap,
        cap > 0,
    ensures
        lookup(after_get(es, other), k) == lookup(es, k),
        other != k && !(es.len() == cap && !has_key(es, other) && es.last().0 == k)
            ==> lookup(after_put(es, cap, other, v), k) == lookup(es, k),
{
    lemma_after_get_wf(es, other);
    lemma_put_within_capacity(es, cap, other, v);
    if has_key(es, k) {
        let j = index_of(es, k);
        lemma_lookup_at(es, j);
        let g = after_get(es, other);
        if has_key(es, other) {
            let o = index_of(es, other);
            let jg = if j == o { 0 } else if j < o { j + 1 } else { j };
            assert(g[jg] == es[j]);
            lemma_lookup_at(g, jg);
        } else {
            lemma_lookup_at(g, j);
        }
        if other != k && !(es.len() == cap && !has_key(es, other) && es.last().0 == k) {
            let p = after_put(es, cap, other, v);
            if has_key(es, other) {
                let o = index_of(es, other);
                let jp = if j < o { j + 1 } else { j };
                assert(p[jp] == es[j]);
                lemma_lookup_at(p, jp);
            } else {
                assert(j != es.len() - 1 || es.len() < cap);
                assert(p[j + 1] == es[j]);
                lemma_lookup_at(p, j + 1);
            }
        }
    } else {
        let g = after_get(es, other);
        assert(!has_key(g, k)) by {
            if has_key(g, k) {
                let i = choose|i: int| 0 <= i < g.len() && g[i].0 == k;
                if has_key(es, other) {
                    let o = index_of(es, other);
                    let ie = if i == 0 { o } else if i - 1 < o { i - 1 } else { i };
                    assert(g[i] == es[ie]);
                } else {
                    assert(g[i] == es[i]);
                }
            }
        }
        if other != k {
            let p = after_put(es, cap, other, v);
            assert(!has_key(p, k)) by {
                if has_key(p, k) {
                    let i = choose|i: int| 0 <= i < p.len() && p[i].0 == k;
                    assert(i != 0);
                    if has_key(es, other) {
                        let o = index_of(es, other);
                        let ie = if i - 1 < o { i - 1 } else { i };
                        assert(p[i] == es[ie]);
                    } else {
                        assert(p[i] == es[i - 1]);
                    }
                }
            }
        }
    }
}

} // verus!
