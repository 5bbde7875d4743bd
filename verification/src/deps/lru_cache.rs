//! Least-recently-used caches, from `lru`.
//!
//! The contents of a cache are a list of keys and values, the one that was used last in front.
use lru::LruCache;
use vstd::prelude::*;

use crate::tables::distinct_keys;
use crate::tables::has_key;
use crate::tables::key_pos;
use crate::tables::lemma_key_pos;
use crate::tables::lemma_key_pos_is;

verus! {

/// A cache of `lru`. Only its contents and its capacity are spoken of.
#[verifier::external_type_specification]
#[verifier::external_body]
#[verifier::reject_recursive_types(K)]
#[verifier::reject_recursive_types(V)]
#[verifier::reject_recursive_types(S)]
pub struct ExLruCache<K, V, S>(lru::LruCache<K, V, S>);

/// The hash builder that `lru` uses unless it is told otherwise.
#[verifier::external_type_specification]
#[verifier::external_body]
pub struct ExDefaultHasher(lru::DefaultHasher);

/// The list after `k` has been used: its entry, if there is one, stands in front.
pub open spec fn touched<K, V>(s: Seq<(K, V)>, k: K) -> Seq<(K, V)> {
    if has_key(s, k) {
        seq![s[key_pos(s, k)]] + s.remove(key_pos(s, k))
    } else {
        s
    }
}

/// The list after a new entry has been put in front. Where the cache is full, the last one goes.
pub open spec fn inserted<K, V>(s: Seq<(K, V)>, cap: nat, k: K, v: V) -> Seq<(K, V)> {
    seq![(k, v)] + if s.len() >= cap {
        s.drop_last()
    } else {
        s
    }
}

/// The list after `k` has been given the value `v`.
pub open spec fn put<K, V>(s: Seq<(K, V)>, cap: nat, k: K, v: V) -> Seq<(K, V)> {
    if has_key(s, k) {
        seq![(k, v)] + s.remove(key_pos(s, k))
    } else {
        inserted(s, cap, k, v)
    }
}

/// What holds of the contents of a cache: no key occurs twice, and there are no more entries than
/// it was made for.
pub open spec fn lru_ok<K, V>(s: Seq<(K, V)>, cap: nat) -> bool {
    distinct_keys(s) && s.len() <= cap && cap > 0
}

/// Using and putting keep what holds of the contents of a cache; the key that was put or used
/// stands in front.
pub proof fn lemma_lru_steps<K, V>(s: Seq<(K, V)>, cap: nat, k: K, v: V)
    requires
        lru_ok(s, cap),
    ensures
        lru_ok(touched(s, k), cap),
        lru_ok(put(s, cap, k, v), cap),
        put(s, cap, k, v)[0] == (k, v),
        put(s, cap, k, v).len() > 0,
        has_key(s, k) ==> touched(s, k).len() == s.len() && touched(s, k)[0] == s[key_pos(s, k)]
            && touched(s, k)[0].0 == k,
        has_key(touched(s, k), k) == has_key(s, k),
{
    lemma_key_pos(s, k);
    let p = key_pos(s, k);
    let t = touched(s, k);
    let u = put(s, cap, k, v);
    assert forall|i: int, j: int| 0 <= i < j < t.len() implies t[i].0 != t[j].0 by {
        if has_key(s, k) {
            if i == 0 {
                assert(t[j] == s.remove(p)[j - 1]);
            } else {
                assert(t[i] == s.remove(p)[i - 1]);
                assert(t[j] == s.remove(p)[j - 1]);
            }
        }
    }
    assert forall|i: int, j: int| 0 <= i < j < u.len() implies u[i].0 != u[j].0 by {
        if has_key(s, k) {
            if i == 0 {
                assert(u[j] == s.remove(p)[j - 1]);
            } else {
                assert(u[i] == s.remove(p)[i - 1]);
                assert(u[j] == s.remove(p)[j - 1]);
            }
        } else {
            assert(u[j] == s[j - 1]);
            if i > 0 {
                assert(u[i] == s[i - 1]);
            }
        }
    }
    if has_key(s, k) {
        lemma_key_pos_is(t, k, 0);
    }
}

// ---- Caches from a name to a number ----
/// The contents of a cache from names to numbers.
pub uninterp spec fn name_entries(c: LruCache<String, u16>) -> Seq<(Seq<char>, u16)>;

/// For how many entries a cache from names to numbers was made.
pub uninterp spec fn name_cap(c: LruCache<String, u16>) -> nat;

/// Calls `LruCache::new`: an empty cache for at most `cap` entries.
#[verifier::external_body]
pub(crate) fn name_cache_new(cap: usize) -> (c: LruCache<String, u16>)
    requires
        0 < cap <= 0x1_0000,
    ensures
        name_entries(c) == Seq::<(Seq<char>, u16)>::empty(),
        name_cap(c) == cap,
{
    LruCache::new(std::num::NonZeroUsize::new(cap).unwrap())
}

/// Calls `LruCache::get`: the value of the key, whose entry moves to the front.
#[verifier::external_body]
pub(crate) fn name_cache_get(c: &mut LruCache<String, u16>, k: &str) -> (r: Option<u16>)
    ensures
        name_entries(*final(c)) == touched(name_entries(*old(c)), k@),
        name_cap(*final(c)) == name_cap(*old(c)),
        match r {
            Some(v) => has_key(name_entries(*old(c)), k@) && v == name_entries(*old(c))[key_pos(
                name_entries(*old(c)),
                k@,
            )].1,
            None => !has_key(name_entries(*old(c)), k@),
        },
{
    c.get(k).copied()
}

/// Calls `LruCache::put`: the key has the value, in front; where the key is new and the cache
/// full, the entry that was used longest ago goes.
#[verifier::external_body]
pub(crate) fn name_cache_put(c: &mut LruCache<String, u16>, k: String, v: u16)
    ensures
        name_entries(*final(c)) == put(name_entries(*old(c)), name_cap(*old(c)), k@, v),
        name_cap(*final(c)) == name_cap(*old(c)),
{
    c.put(k, v);
}

/// Walks `LruCache::iter`: all entries, the one that was used last first.
#[verifier::external_body]
pub(crate) fn name_cache_entries(c: &LruCache<String, u16>) -> (r: Vec<(String, u16)>)
    ensures
        crate::tables::named(r@) == name_entries(*c),
{
    c.iter().map(|(k, v)| (k.clone(), *v)).collect()
}

// ---- Caches from an address to a name ----
/// The contents of a cache from addresses, as numbers, to names.
pub uninterp spec fn addr_entries(c: LruCache<u128, String>) -> Seq<(u128, Seq<char>)>;

/// For how many entries a cache from addresses to names was made.
pub uninterp spec fn addr_cap(c: LruCache<u128, String>) -> nat;

/// Addresses and names, with the names as text.
pub open spec fn addr_pairs(s: Seq<(u128, String)>) -> Seq<(u128, Seq<char>)> {
    Seq::new(s.len(), |i: int| (s[i].0, s[i].1@))
}

/// Calls `LruCache::new`: an empty cache for at most `cap` entries.
#[verifier::external_body]
pub(crate) fn addr_cache_new(cap: usize) -> (c: LruCache<u128, String>)
    requires
        0 < cap <= 0x1_0000,
    ensures
        addr_entries(c) == Seq::<(u128, Seq<char>)>::empty(),
        addr_cap(c) == cap,
{
    LruCache::new(std::num::NonZeroUsize::new(cap).unwrap())
}

/// Calls `LruCache::put`: the key has the value, in front; where the key is new and the cache
/// full, the entry that was used longest ago goes.
#[verifier::external_body]
pub(crate) fn addr_cache_put(c: &mut LruCache<u128, String>, k: u128, v: String)
    ensures
        addr_entries(*final(c)) == put(addr_entries(*old(c)), addr_cap(*old(c)), k, v@),
        addr_cap(*final(c)) == addr_cap(*old(c)),
{
    c.put(k, v);
}

/// Calls `LruCache::peek`: the value of the key; no entry moves.
#[verifier::external_body]
pub(crate) fn addr_cache_peek(c: &LruCache<u128, String>, k: u128) -> (r: Option<&String>)
    ensures
        match r {
            Some(v) => has_key(addr_entries(*c), k) && v@ == addr_entries(*c)[key_pos(
                addr_entries(*c),
                k,
            )].1,
            None => !has_key(addr_entries(*c), k),
        },
{
    c.peek(&k)
}

/// Calls `LruCache::get_or_insert` with a closure that gives `v`: a key that is there keeps its
/// value and moves to the front; one that is not is put there with the value `v`.
#[verifier::external_body]
pub(crate) fn addr_cache_get_or_insert(c: &mut LruCache<u128, String>, k: u128, v: String)
    ensures
        addr_entries(*final(c)) == (if has_key(addr_entries(*old(c)), k) {
            touched(addr_entries(*old(c)), k)
        } else {
            inserted(addr_entries(*old(c)), addr_cap(*old(c)), k, v@)
        }),
        addr_cap(*final(c)) == addr_cap(*old(c)),
{
    c.get_or_insert(k, || v);
}

/// Walks `LruCache::iter`: all entries, the one that was used last first.
#[verifier::external_body]
pub(crate) fn addr_cache_entries(c: &LruCache<u128, String>) -> (r: Vec<(u128, String)>)
    ensures
        addr_pairs(r@) == addr_entries(*c),
{
    c.iter().map(|(k, v)| (*k, v.clone())).collect()
}

} // verus!
