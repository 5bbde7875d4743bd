//! Small tables: lists of keys and values in which no key occurs twice.
use vstd::prelude::*;

use crate::net::SocketAddr;

verus! {

/// The place of the first entry for `k`; the length of the list where there is none.
pub open spec fn key_pos<K, V>(s: Seq<(K, V)>, k: K) -> int
    decreases s.len(),
{
    if s.len() == 0 {
        0
    } else if s[0].0 == k {
        0
    } else {
        1 + key_pos(s.drop_first(), k)
    }
}

/// Whether there is an entry for `k`.
pub open spec fn has_key<K, V>(s: Seq<(K, V)>, k: K) -> bool {
    key_pos(s, k) < s.len()
}

/// Whether no key occurs twice.
pub open spec fn distinct_keys<K, V>(s: Seq<(K, V)>) -> bool {
    forall|i: int, j: int| 0 <= i < j < s.len() ==> s[i].0 != s[j].0
}

/// The list as a map.
pub open spec fn map_of<K, V>(s: Seq<(K, V)>) -> Map<K, V> {
    Map::new(|k: K| has_key(s, k), |k: K| s[key_pos(s, k)].1)
}

pub proof fn lemma_key_pos<K, V>(s: Seq<(K, V)>, k: K)
    ensures
        0 <= key_pos(s, k) <= s.len(),
        has_key(s, k) ==> s[key_pos(s, k)].0 == k,
        forall|i: int| 0 <= i < key_pos(s, k) ==> (#[trigger] s[i]).0 != k,
    decreases s.len(),
{
    if s.len() > 0 && s[0].0 != k {
        lemma_key_pos(s.drop_first(), k);
        assert forall|i: int| 0 <= i < key_pos(s, k) implies (#[trigger] s[i]).0 != k by {
            if i > 0 {
                assert(s.drop_first()[i - 1].0 != k);
            }
        }
    }
}

/// The place of a key is the place where it stands, if it stands nowhere before.
pub proof fn lemma_key_pos_is<K, V>(s: Seq<(K, V)>, k: K, p: int)
    requires
        0 <= p <= s.len(),
        p < s.len() ==> s[p].0 == k,
        forall|i: int| 0 <= i < p ==> (#[trigger] s[i]).0 != k,
    ensures
        key_pos(s, k) == p,
{
    lemma_key_pos(s, k);
    if key_pos(s, k) < p {
        assert(s[key_pos(s, k)].0 != k);
    }
    if p < key_pos(s, k) {
        assert(s[p].0 != k);
    }
}

pub proof fn lemma_push<K, V>(s: Seq<(K, V)>, k: K, v: V)
    requires
        distinct_keys(s),
        !has_key(s, k),
    ensures
        distinct_keys(s.push((k, v))),
        map_of(s.push((k, v))) == map_of(s).insert(k, v),
{
    let t = s.push((k, v));
    lemma_key_pos(s, k);
    assert forall|i: int, j: int| 0 <= i < j < t.len() implies t[i].0 != t[j].0 by {
        assert(s[i].0 != k);
    }
    assert forall|q: K| #[trigger]
        has_key(t, q) == (q == k || has_key(s, q)) && (has_key(t, q) ==> t[key_pos(t, q)].1 == (if q
            == k {
            v
        } else {
            s[key_pos(s, q)].1
        })) by {
        lemma_key_pos(s, q);
        if q == k {
            lemma_key_pos_is(t, q, s.len() as int);
        } else if has_key(s, q) {
            lemma_key_pos_is(t, q, key_pos(s, q));
        } else {
            lemma_key_pos_is(t, q, t.len() as int);
        }
    }
    assert(map_of(t) =~= map_of(s).insert(k, v));
}

pub proof fn lemma_update<K, V>(s: Seq<(K, V)>, i: int, v: V)
    requires
        distinct_keys(s),
        0 <= i < s.len(),
    ensures
        distinct_keys(s.update(i, (s[i].0, v))),
        map_of(s.update(i, (s[i].0, v))) == map_of(s).insert(s[i].0, v),
{
    let k = s[i].0;
    let t = s.update(i, (k, v));
    assert forall|q: K| #[trigger]
        has_key(t, q) == (q == k || has_key(s, q)) && (has_key(t, q) ==> t[key_pos(t, q)].1 == (if q
            == k {
            v
        } else {
            s[key_pos(s, q)].1
        })) by {
        lemma_key_pos(s, q);
        lemma_key_pos_is(s, k, i);
        lemma_key_pos_is(t, q, key_pos(s, q));
    }
    assert(map_of(t) =~= map_of(s).insert(k, v));
}

pub proof fn lemma_remove<K, V>(s: Seq<(K, V)>, i: int)
    requires
        distinct_keys(s),
        0 <= i < s.len(),
    ensures
        distinct_keys(s.remove(i)),
        map_of(s.remove(i)) == map_of(s).remove(s[i].0),
{
    let k = s[i].0;
    let t = s.remove(i);
    assert forall|q: K| #[trigger]
        has_key(t, q) == (q != k && has_key(s, q)) && (has_key(t, q) ==> t[key_pos(t, q)].1
            == s[key_pos(s, q)].1) by {
        lemma_key_pos(s, q);
        let p = key_pos(s, q);
        if q == k {
            lemma_key_pos_is(s, k, i);
            lemma_key_pos_is(t, q, t.len() as int);
        } else if p < i {
            lemma_key_pos_is(t, q, p);
        } else if has_key(s, q) {
            lemma_key_pos_is(t, q, p - 1);
        } else {
            lemma_key_pos_is(t, q, t.len() as int);
        }
    }
    assert(map_of(t) =~= map_of(s).remove(k));
}

/// The entries that `keep` keeps, in their order.
pub open spec fn kept<K, V>(s: Seq<(K, V)>, keep: spec_fn(V) -> bool) -> Seq<(K, V)>
    decreases s.len(),
{
    if s.len() == 0 {
        Seq::empty()
    } else if keep(s.last().1) {
        kept(s.drop_last(), keep).push(s.last())
    } else {
        kept(s.drop_last(), keep)
    }
}

/// The map holds after a sweep what it held before and `keep` keeps.
pub proof fn lemma_kept<K, V>(s: Seq<(K, V)>, keep: spec_fn(V) -> bool)
    requires
        distinct_keys(s),
    ensures
        distinct_keys(kept(s, keep)),
        forall|k: K| #[trigger]
            has_key(kept(s, keep), k) <==> has_key(s, k) && keep(map_of(s)[k]),
        forall|k: K|
            has_key(kept(s, keep), k) ==> #[trigger] map_of(kept(s, keep))[k] == map_of(s)[k],
    decreases s.len(),
{
    if s.len() > 0 {
        let t = s.drop_last();
        lemma_kept(t, keep);
        let (k, v) = s.last();
        lemma_key_pos_is(t, k, t.len() as int);
        lemma_push(t, k, v);
        assert(t.push((k, v)) =~= s);
        let r = kept(t, keep);
        assert(!has_key(r, k));
        if keep(v) {
            lemma_push(r, k, v);
        }
        assert forall|q: K| #[trigger]
            has_key(kept(s, keep), q) <==> has_key(s, q) && keep(map_of(s)[q]) by {
            assert(has_key(s, q) == map_of(s).contains_key(q));
            assert(has_key(t, q) == map_of(t).contains_key(q));
            assert(has_key(r, q) == map_of(r).contains_key(q));
            assert(has_key(kept(s, keep), q) == map_of(kept(s, keep)).contains_key(q));
        }
        assert forall|q: K| has_key(kept(s, keep), q) implies #[trigger] map_of(kept(s, keep))[q]
            == map_of(s)[q] by {
            assert(has_key(s, q) == map_of(s).contains_key(q));
            assert(has_key(t, q) == map_of(t).contains_key(q));
            assert(has_key(r, q) == map_of(r).contains_key(q));
            if q != k {
                assert(has_key(r, q));
                assert(map_of(r)[q] == map_of(t)[q]);
            }
        }
    }
}

/// A table by socket address.
pub struct AddrMap<V> {
    pub entries: Vec<(SocketAddr, V)>,
}

impl<V> View for AddrMap<V> {
    type V = Map<SocketAddr, V>;

    open spec fn view(&self) -> Map<SocketAddr, V> {
        map_of(self.entries@)
    }
}

impl<V> AddrMap<V> {
    pub open spec fn wf(&self) -> bool {
        distinct_keys(self.entries@)
    }

    pub fn new() -> (t: Self)
        ensures
            t.wf(),
            t@ == Map::<SocketAddr, V>::empty(),
    {
        let t = AddrMap { entries: Vec::new() };
        assert(t@ =~= Map::<SocketAddr, V>::empty());
        t
    }

    /// The place of the entry for `k`, or the number of entries.
    pub fn position(&self, k: SocketAddr) -> (p: usize)
        ensures
            p == key_pos(self.entries@, k),
            p <= self.entries@.len(),
            p < self.entries@.len() ==> self.entries@[p as int].0 == k,
            (p < self.entries@.len()) == self@.contains_key(k),
    {
        let mut i: usize = 0;
        while i < self.entries.len() && self.entries[i].0 != k
            invariant
                i <= self.entries@.len(),
                forall|j: int| 0 <= j < i ==> (#[trigger] self.entries@[j]).0 != k,
            decreases self.entries@.len() - i,
        {
            i += 1;
        }
        proof {
            lemma_key_pos_is(self.entries@, k, i as int);
        }
        i
    }

    pub fn contains(&self, k: SocketAddr) -> (r: bool)
        ensures
            r == self@.contains_key(k),
    {
        self.position(k) < self.entries.len()
    }

    pub fn get(&self, k: SocketAddr) -> (r: Option<&V>)
        ensures
            match r {
                Some(v) => self@.contains_key(k) && *v == self@[k],
                None => !self@.contains_key(k),
            },
    {
        let p: usize = self.position(k);
        if p < self.entries.len() {
            Some(&self.entries[p].1)
        } else {
            None
        }
    }

    /// Puts an entry in the table, in place of the one that `k` had.
    pub fn insert(&mut self, k: SocketAddr, v: V)
        requires
            old(self).wf(),
        ensures
            final(self).wf(),
            final(self)@ == old(self)@.insert(k, v),
    {
        let p: usize = self.position(k);
        if p < self.entries.len() {
            proof {
                lemma_update(self.entries@, p as int, v);
            }
            self.entries[p] = (k, v);
        } else {
            proof {
                lemma_push(self.entries@, k, v);
            }
            self.entries.push((k, v));
        }
    }

    /// Takes the entry of `k` out of the table.
    pub fn remove(&mut self, k: SocketAddr) -> (r: Option<V>)
        requires
            old(self).wf(),
        ensures
            final(self).wf(),
            final(self)@ == old(self)@.remove(k),
            match r {
                Some(v) => old(self)@.contains_key(k) && v == old(self)@[k],
                None => !old(self)@.contains_key(k),
            },
    {
        let p: usize = self.position(k);
        if p < self.entries.len() {
            proof {
                lemma_remove(self.entries@, p as int);
            }
            let e = self.entries.remove(p);
            Some(e.1)
        } else {
            assert(self@.remove(k) =~= self@);
            None
        }
    }
}

/// The entries of a table by name, with the names as text.
pub open spec fn named<V>(s: Seq<(String, V)>) -> Seq<(Seq<char>, V)> {
    Seq::new(s.len(), |i: int| (s[i].0@, s[i].1))
}

/// A table by name.
pub struct NameMap<V> {
    pub entries: Vec<(String, V)>,
}

impl<V> View for NameMap<V> {
    type V = Map<Seq<char>, V>;

    open spec fn view(&self) -> Map<Seq<char>, V> {
        map_of(named(self.entries@))
    }
}

impl<V> NameMap<V> {
    pub open spec fn wf(&self) -> bool {
        distinct_keys(named(self.entries@))
    }

    pub fn new() -> (t: Self)
        ensures
            t.wf(),
            t@ == Map::<Seq<char>, V>::empty(),
    {
        let t = NameMap { entries: Vec::new() };
        assert(t@ =~= Map::<Seq<char>, V>::empty());
        t
    }

    /// The place of the entry for `k`, or the number of entries.
    pub fn position(&self, k: &String) -> (p: usize)
        ensures
            p == key_pos(named(self.entries@), k@),
            p <= self.entries@.len(),
            p < self.entries@.len() ==> self.entries@[p as int].0@ == k@,
            (p < self.entries@.len()) == self@.contains_key(k@),
    {
        let mut i: usize = 0;
        while i < self.entries.len() && self.entries[i].0 != *k
            invariant
                i <= self.entries@.len(),
                forall|j: int| 0 <= j < i ==> (#[trigger] named(self.entries@)[j]).0 != k@,
            decreases self.entries@.len() - i,
        {
            assert(named(self.entries@)[i as int].0 != k@);
            i += 1;
        }
        proof {
            if i < self.entries@.len() {
                assert(named(self.entries@)[i as int].0 == k@);
            }
            lemma_key_pos_is(named(self.entries@), k@, i as int);
        }
        i
    }

    pub fn get(&self, k: &String) -> (r: Option<&V>)
        ensures
            match r {
                Some(v) => self@.contains_key(k@) && *v == self@[k@],
                None => !self@.contains_key(k@),
            },
    {
        let p: usize = self.position(k);
        if p < self.entries.len() {
            Some(&self.entries[p].1)
        } else {
            None
        }
    }

    /// Puts an entry in the table, in place of the one that `k` had.
    pub fn insert(&mut self, k: String, v: V)
        requires
            old(self).wf(),
        ensures
            final(self).wf(),
            final(self)@ == old(self)@.insert(k@, v),
    {
        let p: usize = self.position(&k);
        let ghost s = named(self.entries@);
        if p < self.entries.len() {
            proof {
                lemma_update(s, p as int, v);
            }
            self.entries[p] = (k, v);
            assert(named(self.entries@) =~= s.update(p as int, (k@, v)));
        } else {
            proof {
                lemma_push(s, k@, v);
            }
            self.entries.push((k, v));
            assert(named(self.entries@) =~= s.push((k@, v)));
        }
    }
}

// ---- Laws ----
/// What is put under an address is got there, until it is removed or replaced; nothing else is touched.
pub proof fn addresses_keep_their_values(
    t: &mut AddrMap<u8>,
    k: SocketAddr,
    v: u8,
    other: SocketAddr,
    other_before: Option<&u8>,
    found: Option<&u8>,
    there: bool,
    other_after: Option<&u8>,
    u: &mut AddrMap<u8>,
    removed: Option<u8>,
    gone: Option<&u8>,
    not_there: bool,
)
    requires
        t.wf(),
        other != k,
        call_ensures(AddrMap::<u8>::get, (&*old(t), other), other_before),
        call_ensures(AddrMap::<u8>::insert, (t, k, v), ()),
        call_ensures(AddrMap::<u8>::get, (&*final(t), k), found),
        call_ensures(AddrMap::<u8>::contains, (&*final(t), k), there),
        call_ensures(AddrMap::<u8>::get, (&*final(t), other), other_after),
        *u == *final(t),
        call_ensures(AddrMap::<u8>::remove, (u, k), removed),
        call_ensures(AddrMap::<u8>::get, (&*final(u), k), gone),
        call_ensures(AddrMap::<u8>::contains, (&*final(u), k), not_there),
    ensures
        found matches Some(x) && *x == v,
        there,
        other_before is Some <==> other_after is Some,
        other_before matches Some(x) ==> (other_after matches Some(y) && *x == *y),
        removed == Some(v),
        gone is None,
        !not_there,
{
}

} // verus!
