//! Trusted interface to the outside least-recently-used map.
//!
//! The bounded mapping behind the resolver cache is `lru::LruCache`, keyed by
//! file path (as raw bytes) and holding a slot index. Its contents are named
//! by [`lru_rep`]: the sequence of key/value pairs in recency order, most
//! recently used first; [`lru_bound`] names the capacity the map was created
//! with. Every method the cache logic calls goes through a wrapper here whose
//! contract states, over those two names, what the crate's source shows.

use lru::LruCache;
use std::num::NonZeroUsize;

use vstd::prelude::*;

verus! {

#[verifier::external_type_specification]
#[verifier::external_body]
#[verifier::reject_recursive_types(K)]
#[verifier::reject_recursive_types(V)]
#[verifier::reject_recursive_types(S)]
pub struct ExLruCache<K, V, S>(LruCache<K, V, S>);

/// The key/value pairs held by the map, in recency order: the most recently
/// used entry first, the least recently used entry last.
pub uninterp spec fn lru_rep(c: &LruCache<Vec<u8>, usize>) -> Seq<(Seq<u8>, usize)>;

/// The capacity the map was created with.
pub uninterp spec fn lru_bound(c: &LruCache<Vec<u8>, usize>) -> nat;

/// Whether some pair in `s` carries the key `k`.
pub open spec fn has_key<V>(s: Seq<(Seq<u8>, V)>, k: Seq<u8>) -> bool {
    exists|i: int| 0 <= i < s.len() && (#[trigger] s[i]).0 == k
}

/// The position of the pair carrying key `k`; meaningful when `has_key`
/// holds and the keys of `s` are distinct.
pub open spec fn key_index<V>(s: Seq<(Seq<u8>, V)>, k: Seq<u8>) -> int {
    choose|i: int| 0 <= i < s.len() && (#[trigger] s[i]).0 == k
}

/// No two pairs of `s` carry the same key.
pub open spec fn keys_distinct<V>(s: Seq<(Seq<u8>, V)>) -> bool {
    forall|i: int, j: int| 0 <= i < j < s.len() ==> (#[trigger] s[i]).0 != (#[trigger] s[j]).0
}

/// No two pairs of `s` carry the same value.
pub open spec fn values_distinct<V>(s: Seq<(Seq<u8>, V)>) -> bool {
    forall|i: int, j: int| 0 <= i < j < s.len() ==> (#[trigger] s[i]).1 != (#[trigger] s[j]).1
}

/// Relies on `lru::LruCache::new`: a fresh map with the given capacity holds
/// nothing.
#[verifier::external_body]
pub(crate) fn lru_new(cap: usize) -> (c: LruCache<Vec<u8>, usize>)
    requires
        1 <= cap,
    ensures
        lru_rep(&c) == Seq::<(Seq<u8>, usize)>::empty(),
        lru_bound(&c) == cap,
{
    LruCache::new(NonZeroUsize::new(cap).unwrap())
}

/// Relies on `lru::LruCache::get`: the value stored under the key is
/// returned and its entry becomes the most recently used; a missing key
/// leaves the map unchanged.
#[verifier::external_body]
pub(crate) fn lru_get(c: &mut LruCache<Vec<u8>, usize>, k: &Vec<u8>) -> (r: Option<usize>)
    ensures
        lru_bound(final(c)) == lru_bound(old(c)),
        has_key(lru_rep(old(c)), k@) ==> ({
            let s = lru_rep(old(c));
            let i = key_index(s, k@);
            r == Some(s[i].1) && lru_rep(final(c)) == s.remove(i).insert(0, s[i])
        }),
        !has_key(lru_rep(old(c)), k@) ==> r is None && lru_rep(final(c)) == lru_rep(old(c)),
{
    c.get(k).copied()
}

/// Relies on `lru::LruCache::push`: an existing key's entry is given the new
/// value and becomes the most recently used, and its old pair is returned;
/// a new key at capacity evicts the least recently used entry, which is
/// returned; otherwise the pair is inserted in front with nothing returned.
#[verifier::external_body]
pub(crate) fn lru_push(c: &mut LruCache<Vec<u8>, usize>, k: Vec<u8>, v: usize) -> (r: Option<
    (Vec<u8>, usize),
>)
    ensures
        lru_bound(final(c)) == lru_bound(old(c)),
        has_key(lru_rep(old(c)), k@) ==> ({
            let s = lru_rep(old(c));
            let i = key_index(s, k@);
            lru_rep(final(c)) == s.remove(i).insert(0, (k@, v)) && (r matches Some(p) && p.0@ == k@
                && p.1 == s[i].1)
        }),
        !has_key(lru_rep(old(c)), k@) && lru_rep(old(c)).len() < lru_bound(old(c)) ==> lru_rep(final(c))
            == lru_rep(old(c)).insert(0, (k@, v)) && r is None,
        !has_key(lru_rep(old(c)), k@) && lru_rep(old(c)).len() >= lru_bound(old(c)) ==> ({
            let s = lru_rep(old(c));
            lru_rep(final(c)) == s.drop_last().insert(0, (k@, v)) && (r matches Some(p) && p.0@
                == s.last().0 && p.1 == s.last().1)
        }),
{
    c.push(k, v)
}

/// Relies on `lru::LruCache::pop_lru`: the least recently used entry is
/// removed and returned; an empty map is left unchanged.
#[verifier::external_body]
pub(crate) fn lru_pop(c: &mut LruCache<Vec<u8>, usize>) -> (r: Option<(Vec<u8>, usize)>)
    ensures
        lru_bound(final(c)) == lru_bound(old(c)),
        lru_rep(old(c)).len() == 0 ==> r is None && lru_rep(final(c)) == lru_rep(old(c)),
        lru_rep(old(c)).len() > 0 ==> lru_rep(final(c)) == lru_rep(old(c)).drop_last() && (
        r matches Some(p) && p.0@ == lru_rep(old(c)).last().0 && p.1 == lru_rep(old(c)).last().1),
{
    c.pop_lru()
}

/// Relies on `lru::LruCache::len`: the number of entries held.
#[verifier::external_body]
pub(crate) fn lru_len(c: &LruCache<Vec<u8>, usize>) -> (n: usize)
    ensures
        n == lru_rep(c).len(),
{
    c.len()
}

} // verus!
