//! Fake addresses: each name gets a number, and an address under a fixed prefix with that number.
use lru::LruCache;
use vstd::prelude::*;

use crate::be::be_bytes;
use crate::be::be_value;
use crate::deps::lru_cache::lemma_lru_steps;
use crate::deps::lru_cache::lru_ok;
use crate::deps::lru_cache::name_cache_entries;
use crate::deps::lru_cache::name_cache_get;
use crate::deps::lru_cache::name_cache_new;
use crate::deps::lru_cache::name_cache_put;
use crate::deps::lru_cache::name_cap;
use crate::deps::lru_cache::name_entries;
use crate::deps::lru_cache::put;
use crate::deps::lru_cache::touched;
use crate::net::IpAddr;
use crate::net::Ipv4Addr;
use crate::net::Ipv6Addr;
use crate::tables::has_key;
use crate::tables::key_pos;
use crate::tables::map_of;
use crate::tables::named;

verus! {

/// How many names are remembered.
pub const CACHE_CAPACITY: usize = 1000;

/// What is kept between runs: the next number, and the names with their numbers.
pub struct InnerCache {
    pub current: u16,
    pub cache: Vec<(String, u16)>,
}

pub struct FakeIp {
    pub prefix_v4: u16,
    pub prefix_v6: [u8; 14],
    pub current: u16,
    pub cache: LruCache<String, u16>,
}

/// The list after names with their numbers have been put one after the other.
pub open spec fn loaded(s: Seq<(Seq<char>, u16)>) -> Seq<(Seq<char>, u16)>
    decreases s.len(),
{
    if s.len() == 0 {
        Seq::empty()
    } else {
        put(loaded(s.drop_last()), CACHE_CAPACITY as nat, s.last().0, s.last().1)
    }
}

/// The first name in the list that has the number `index`.
pub open spec fn name_with(s: Seq<(Seq<char>, u16)>, index: u16) -> Option<Seq<char>>
    decreases s.len(),
{
    if s.len() == 0 {
        None
    } else if s[0].1 == index {
        Some(s[0].0)
    } else {
        name_with(s.drop_first(), index)
    }
}

/// The names with their numbers, the name that was used last in front, and the next number.
#[verifier::ext_equal]
pub struct Numbers {
    pub entries: Seq<(Seq<char>, u16)>,
    pub current: u16,
}

impl Numbers {
    /// No names.
    pub open spec fn none() -> Numbers {
        Numbers { entries: Seq::empty(), current: 1 }
    }

    /// The number that `domain` has, or gets.
    pub open spec fn number(self, domain: Seq<char>) -> u16 {
        if has_key(self.entries, domain) {
            self.entries[key_pos(self.entries, domain)].1
        } else {
            self.current
        }
    }

    /// What is left after the number of `domain` was asked for: the name is the one that was used
    /// last, and where it is new, it took the next number.
    pub open spec fn asked(self, domain: Seq<char>) -> Numbers {
        if has_key(self.entries, domain) {
            Numbers { entries: touched(self.entries, domain), current: self.current }
        } else {
            Numbers {
                entries: put(self.entries, CACHE_CAPACITY as nat, domain, self.current),
                current: self.current.wrapping_add(1),
            }
        }
    }

    /// What is left after names were asked for one after the other.
    pub open spec fn asked_all(self, domains: Seq<Seq<char>>) -> Numbers
        decreases domains.len(),
    {
        if domains.len() == 0 {
            self
        } else {
            self.asked_all(domains.drop_last()).asked(domains.last())
        }
    }

    /// Whether no two names share a number, and all numbers were given out: they lie between 1 and
    /// the next number.
    pub open spec fn tidy(self) -> bool {
        &&& lru_ok(self.entries, CACHE_CAPACITY as nat)
        &&& forall|i: int|
            0 <= i < self.entries.len() ==> 1 <= (#[trigger] self.entries[i]).1 < self.current
        &&& forall|i: int, j: int|
            0 <= i < j < self.entries.len() ==> self.entries[i].1 != self.entries[j].1
    }
}

pub open spec fn text_of(s: Option<String>) -> Option<Seq<char>> {
    match s {
        Some(t) => Some(t@),
        None => None,
    }
}

impl FakeIp {
    /// The names and their numbers, the name that was used last in front.
    pub open spec fn entries(&self) -> Seq<(Seq<char>, u16)> {
        name_entries(self.cache)
    }

    pub open spec fn wf(&self) -> bool {
        name_cap(self.cache) == CACHE_CAPACITY && lru_ok(self.entries(), CACHE_CAPACITY as nat)
    }

    pub open spec fn numbers(&self) -> Numbers {
        Numbers { entries: self.entries(), current: self.current }
    }

    /// The number that `domain` has, or gets.
    pub open spec fn index_of(&self, domain: Seq<char>) -> u16 {
        self.numbers().number(domain)
    }

    /// Whether this is `before` after it was asked for the number of `domain`: the name is the one
    /// that was used last, and where it is new, it took the next number.
    pub open spec fn follows(&self, before: FakeIp, domain: Seq<char>) -> bool {
        &&& self.prefix_v4 == before.prefix_v4
        &&& self.prefix_v6 == before.prefix_v6
        &&& self.numbers() == before.numbers().asked(domain)
    }

    /// The IPv4 address with the number `index`.
    pub open spec fn addr_v4(&self, index: u16) -> Ipv4Addr {
        Ipv4Addr { bits: (self.prefix_v4 * 0x1_0000 + index) as u32 }
    }

    /// The octets of the IPv6 address with the number `index`.
    pub open spec fn octets_v6(&self, index: u16) -> Seq<u8> {
        self.prefix_v6@ + be_bytes(index as nat, 2)
    }

    /// The name behind an address, if the address is under the prefix and a name has its number.
    pub open spec fn domain_of(&self, ip: IpAddr) -> Option<Seq<char>> {
        match ip {
            IpAddr::V4(ip) => if ip.bits / 0x1_0000 == self.prefix_v4 {
                name_with(self.entries(), (ip.bits % 0x1_0000) as u16)
            } else {
                None
            },
            IpAddr::V6(ip) => if ip.octets_spec().subrange(0, 14) == self.prefix_v6@ {
                name_with(self.entries(), be_value(ip.octets_spec().subrange(14, 16)) as u16)
            } else {
                None
            },
        }
    }

    /// Begins with what was saved, or with no names and the number 1.
    pub fn new(prefix_v4: [u8; 2], prefix_v6: [u8; 14], saved: Option<InnerCache>) -> (f: FakeIp)
        ensures
            f.wf(),
            f.prefix_v4 == prefix_v4@[0] * 256 + prefix_v4@[1],
            f.prefix_v6 == prefix_v6,
            f.current == (match saved {
                Some(s) => s.current,
                None => 1,
            }),
            f.entries() == (match saved {
                Some(s) => loaded(named(s.cache@)),
                None => Seq::empty(),
            }),
    {
        let mut cache = name_cache_new(CACHE_CAPACITY);
        let mut current: u16 = 1;
        if let Some(s) = saved {
            current = s.current;
            let mut i: usize = 0;
            assert(named(s.cache@).subrange(0, 0) =~= Seq::empty());
            while i < s.cache.len()
                invariant
                    i <= s.cache@.len(),
                    name_cap(cache) == CACHE_CAPACITY,
                    name_entries(cache) == loaded(named(s.cache@).subrange(0, i as int)),
                    lru_ok(name_entries(cache), CACHE_CAPACITY as nat),
                decreases s.cache@.len() - i,
            {
                let ghost before = name_entries(cache);
                proof {
                    let t = named(s.cache@).subrange(0, i + 1);
                    assert(t.drop_last() =~= named(s.cache@).subrange(0, i as int));
                    assert(t.last() == (s.cache@[i as int].0@, s.cache@[i as int].1));
                    lemma_lru_steps(
                        before,
                        CACHE_CAPACITY as nat,
                        s.cache@[i as int].0@,
                        s.cache@[i as int].1,
                    );
                }
                name_cache_put(&mut cache, s.cache[i].0.clone(), s.cache[i].1);
                i += 1;
            }
            assert(named(s.cache@).subrange(0, i as int) =~= named(s.cache@));
        }
        let high: u16 = prefix_v4[0] as u16;
        let low: u16 = prefix_v4[1] as u16;
        FakeIp { prefix_v4: high * 256 + low, prefix_v6, current, cache }
    }

    /// The number of a name, and whether the name got it just now.
    pub fn lookup_or_alloc(&mut self, domain: String) -> (r: (u16, bool))
        requires
            old(self).wf(),
        ensures
            final(self).wf(),
            final(self).follows(*old(self), domain@),
            r.0 == old(self).index_of(domain@),
            r.1 == !has_key(old(self).entries(), domain@),
            final(self).entries().len() > 0,
            final(self).entries()[0] == (domain@, r.0),
    {
        proof {
            lemma_lru_steps(self.entries(), CACHE_CAPACITY as nat, domain@, self.current);
            crate::tables::lemma_key_pos(self.entries(), domain@);
        }
        if let Some(index) = name_cache_get(&mut self.cache, domain.as_str()) {
            return (index, false);
        }
        let index: u16 = self.current;
        name_cache_put(&mut self.cache, domain, index);
        self.current = self.current.wrapping_add(1);
        (index, true)
    }

    /// What to keep between runs.
    pub fn snapshot(&self) -> (s: InnerCache)
        ensures
            s.current == self.current,
            named(s.cache@) == self.entries(),
    {
        InnerCache { current: self.current, cache: name_cache_entries(&self.cache) }
    }

    pub fn is_fake_ip_v4(&self, ip: Ipv4Addr) -> (r: bool)
        ensures
            r == (ip.bits / 0x1_0000 == self.prefix_v4),
    {
        ip.bits / 0x1_0000 == self.prefix_v4 as u32
    }

    pub fn is_fake_ip_v6(&self, ip: Ipv6Addr) -> (r: bool)
        ensures
            r == (ip.octets_spec().subrange(0, 14) == self.prefix_v6@),
    {
        let o = ip.octets();
        let mut i: usize = 0;
        while i < 14
            invariant
                i <= 14,
                o@ == ip.octets_spec(),
                o@.len() == 16,
                forall|j: int| 0 <= j < i ==> o@[j] == self.prefix_v6@[j],
            decreases 14 - i,
        {
            if o[i] != self.prefix_v6[i] {
                assert(o@.subrange(0, 14)[i as int] != self.prefix_v6@[i as int]);
                return false;
            }
            i += 1;
        }
        assert(o@.subrange(0, 14) =~= self.prefix_v6@);
        true
    }

    fn name_with_index(&self, index: u16) -> (r: Option<String>)
        ensures
            text_of(r) == name_with(self.entries(), index),
    {
        let entries = name_cache_entries(&self.cache);
        let ghost s = named(entries@);
        let mut i: usize = 0;
        assert(s.subrange(0, s.len() as int) =~= s);
        while i < entries.len()
            invariant
                i <= entries@.len(),
                s == named(entries@),
                s == self.entries(),
                name_with(s, index) == name_with(s.subrange(i as int, s.len() as int), index),
            decreases entries@.len() - i,
        {
            assert(s.subrange(i as int, s.len() as int).drop_first() =~= s.subrange(
                i + 1,
                s.len() as int,
            ));
            if entries[i].1 == index {
                return Some(entries[i].0.clone());
            }
            i += 1;
        }
        None
    }

    /// The name behind an address.
    pub fn lookup_domain_by_fake_ip(&self, ip: IpAddr) -> (r: Option<String>)
        ensures
            text_of(r) == self.domain_of(ip),
    {
        match ip {
            IpAddr::V4(ip) => {
                if !self.is_fake_ip_v4(ip) {
                    return None;
                }
                self.name_with_index((ip.bits % 0x1_0000) as u16)
            },
            IpAddr::V6(ip) => {
                if !self.is_fake_ip_v6(ip) {
                    return None;
                }
                let o = ip.octets();
                let index: u16 = crate::be::read_be16(o.as_slice(), 14);
                self.name_with_index(index)
            },
        }
    }

    /// The IPv4 address of a name, and whether the name got its number just now.
    pub fn resolve_ipv4(&mut self, domain: String) -> (r: (Ipv4Addr, bool))
        requires
            old(self).wf(),
        ensures
            final(self).wf(),
            final(self).follows(*old(self), domain@),
            r.0 == old(self).addr_v4(old(self).index_of(domain@)),
            r.1 == !has_key(old(self).entries(), domain@),
            final(self).index_of(domain@) == old(self).index_of(domain@),
            final(self).domain_of(IpAddr::V4(r.0)) == Some(domain@),
    {
        let ghost name = domain@;
        let (index, fresh) = self.lookup_or_alloc(domain);
        proof {
            crate::tables::lemma_key_pos_is(self.entries(), name, 0);
        }
        (Ipv4Addr { bits: self.prefix_v4 as u32 * 0x1_0000 + index as u32 }, fresh)
    }

    /// The IPv6 address of a name, and whether the name got its number just now.
    pub fn resolve_ipv6(&mut self, domain: String) -> (r: (Ipv6Addr, bool))
        requires
            old(self).wf(),
        ensures
            final(self).wf(),
            final(self).follows(*old(self), domain@),
            r.0.octets_spec() == old(self).octets_v6(old(self).index_of(domain@)),
            r.1 == !has_key(old(self).entries(), domain@),
            final(self).index_of(domain@) == old(self).index_of(domain@),
            final(self).domain_of(IpAddr::V6(r.0)) == Some(domain@),
    {
        let ghost name = domain@;
        let (index, fresh) = self.lookup_or_alloc(domain);
        let mut octets: Vec<u8> = Vec::new();
        octets.extend_from_slice(self.prefix_v6.as_slice());
        crate::be::push_be(&mut octets, index as u128, 2);
        proof {
            crate::tables::lemma_key_pos_is(self.entries(), name, 0);
            crate::be::lemma_pow256_values();
            crate::be::be_round_trip(index as nat, 2);
            assert(octets@ =~= old(self).octets_v6(index));
            assert(octets@.subrange(0, 16) =~= octets@);
            assert(octets@.subrange(0, 14) =~= self.prefix_v6@);
            assert(octets@.subrange(14, 16) =~= be_bytes(index as nat, 2));
        }
        (Ipv6Addr::read(octets.as_slice(), 0), fresh)
    }
}

/// Names keep different numbers, all of them given out, while a name is asked for, as long as there
/// is a next number.
pub proof fn numbers_stay_tidy(n: Numbers, domain: Seq<char>)
    requires
        n.tidy(),
        1 <= n.current < u16::MAX,
    ensures
        n.asked(domain).tidy(),
        1 <= n.current <= n.asked(domain).current <= n.current + 1,
{
    let s = n.entries;
    lemma_lru_steps(s, CACHE_CAPACITY as nat, domain, n.current);
    crate::tables::lemma_key_pos(s, domain);
    let t = n.asked(domain).entries;
    if has_key(s, domain) {
        let p = key_pos(s, domain);
        let place = |i: int| if i == 0 {
            p
        } else if i <= p {
            i - 1
        } else {
            i
        };
        assert forall|i: int| 0 <= i < t.len() implies t[i] == s[#[trigger] place(i)] by {}
        assert forall|i: int| 0 <= i < t.len() implies 1 <= (#[trigger] t[i]).1 < n.current by {
            assert(t[i] == s[place(i)]);
        }
        assert forall|i: int, j: int| 0 <= i < j < t.len() implies t[i].1 != t[j].1 by {
            assert(t[i] == s[place(i)] && t[j] == s[place(j)]);
            assert(place(i) != place(j));
        }
    } else {
        assert forall|i: int| 0 < i < t.len() implies #[trigger] t[i] == s[i - 1] by {}
        assert(t[0] == (domain, n.current));
        assert forall|i: int, j: int| 0 <= i < j < t.len() implies t[i].1 != t[j].1 by {
            assert(t[j] == s[j - 1]);
            if i > 0 {
                assert(t[i] == s[i - 1]);
            }
        }
    }
}

/// Names have different numbers, all of them given out, whatever names are asked for, as long as
/// there are numbers for them.
pub proof fn numbers_never_shared(n: Numbers, domains: Seq<Seq<char>>)
    requires
        n.tidy(),
        1 <= n.current,
        n.current + domains.len() <= u16::MAX,
    ensures
        n.asked_all(domains).tidy(),
        1 <= n.current <= n.asked_all(domains).current <= n.current + domains.len(),
    decreases domains.len(),
{
    if domains.len() > 0 {
        numbers_never_shared(n, domains.drop_last());
        numbers_stay_tidy(n.asked_all(domains.drop_last()), domains.last());
    }
}

/// A number that was not given out has no name.
pub proof fn unused_numbers_have_no_name(n: Numbers, index: u16)
    requires
        n.tidy(),
        index == 0 || index >= n.current,
    ensures
        name_with(n.entries, index) is None,
{
    lemma_no_name(n.entries, index);
}

proof fn lemma_no_name(s: Seq<(Seq<char>, u16)>, index: u16)
    requires
        forall|i: int| 0 <= i < s.len() ==> (#[trigger] s[i]).1 != index,
    ensures
        name_with(s, index) is None,
    decreases s.len(),
{
    if s.len() > 0 {
        assert forall|i: int| 0 <= i < s.drop_first().len() implies (
        #[trigger] s.drop_first()[i]).1 != index by {
            assert(s.drop_first()[i] == s[i + 1]);
        }
        lemma_no_name(s.drop_first(), index);
    }
}

/// No name is behind an address outside the prefixes, nor behind one whose number was not given out.
pub proof fn unused_addresses_have_no_name(f: &FakeIp, ip: IpAddr)
    requires
        f.numbers().tidy(),
        match ip {
            IpAddr::V4(a) => a.bits / 0x1_0000 != f.prefix_v4 || a.bits % 0x1_0000 == 0 || a.bits
                % 0x1_0000 >= f.current,
            IpAddr::V6(a) => a.octets_spec().subrange(0, 14) != f.prefix_v6@ || be_value(
                a.octets_spec().subrange(14, 16),
            ) == 0 || be_value(a.octets_spec().subrange(14, 16)) >= f.current,
        },
    ensures
        f.domain_of(ip) is None,
{
    match ip {
        IpAddr::V4(a) => {
            if a.bits / 0x1_0000 == f.prefix_v4 {
                unused_numbers_have_no_name(f.numbers(), (a.bits % 0x1_0000) as u16);
            }
        },
        IpAddr::V6(a) => {
            crate::be::lemma_be_bytes_len(a.bits as nat, 16);
            let low = a.octets_spec().subrange(14, 16);
            crate::be::lemma_be_value_bound(low);
            crate::be::lemma_pow256_values();
            if a.octets_spec().subrange(0, 14) == f.prefix_v6@ {
                unused_numbers_have_no_name(f.numbers(), be_value(low) as u16);
            }
        },
    }
}

proof fn lemma_map_asked(n: Numbers, domain: Seq<char>)
    requires
        lru_ok(n.entries, CACHE_CAPACITY as nat),
        has_key(n.entries, domain) || n.entries.len() < CACHE_CAPACITY,
    ensures
        map_of(n.asked(domain).entries) == map_of(n.entries).insert(domain, n.number(domain)),
        lru_ok(n.asked(domain).entries, CACHE_CAPACITY as nat),
        n.asked(domain).entries.len() == n.entries.len() + if has_key(n.entries, domain) {
            0int
        } else {
            1
        },
{
    let s = n.entries;
    let t = n.asked(domain).entries;
    lemma_lru_steps(s, CACHE_CAPACITY as nat, domain, n.current);
    crate::tables::lemma_key_pos(s, domain);
    let m = map_of(s).insert(domain, n.number(domain));
    assert forall|k: Seq<char>|
        has_key(t, k) == m.contains_key(k) && (has_key(t, k) ==> t[key_pos(t, k)].1 == m[k]) by {
        crate::tables::lemma_key_pos(s, k);
        crate::tables::lemma_key_pos(t, k);
        let p = key_pos(s, domain);
        let q = key_pos(s, k);
        if k == domain {
            assert(t[0].0 == domain);
            crate::tables::lemma_key_pos_is(t, k, 0);
        } else if has_key(s, k) {
            let at = if has_key(s, domain) && q > p {
                q
            } else {
                q + 1
            };
            assert(t[at] == s[q]);
            if key_pos(t, k) < at {
                assert(t[key_pos(t, k)].0 == k);
            }
            assert(has_key(t, k));
            assert(key_pos(t, k) == at);
        } else if has_key(t, k) {
            let at = key_pos(t, k);
            assert(t[at].0 == k);
            assert(at > 0);
            let from = if has_key(s, domain) && at > p {
                at
            } else {
                at - 1
            };
            assert(t[at] == s[from]);
        }
    }
    assert(map_of(t) =~= m);
}

/// What holds after the names `domains` were asked for from the start.
proof fn lemma_from_start(domains: Seq<Seq<char>>)
    requires
        domains.to_set().len() <= CACHE_CAPACITY,
    ensures
        ({
            let n = Numbers::none().asked_all(domains);
            &&& n.tidy()
            &&& n.entries.len() == domains.to_set().len()
            &&& n.current == n.entries.len() + 1
            &&& forall|d: Seq<char>| #[trigger]
                map_of(n.entries).contains_key(d) <==> domains.contains(d)
        }),
    decreases domains.len(),
{
    broadcast use vstd::seq_lib::group_seq_properties;

    if domains.len() > 0 {
        let before = domains.drop_last();
        let d = domains.last();
        assert(domains =~= before.push(d));
        assert(domains.to_set() =~= before.to_set().insert(d));
        vstd::seq_lib::seq_to_set_is_finite(before);
        lemma_from_start(before);
        let n = Numbers::none().asked_all(before);
        assert(has_key(n.entries, d) <==> map_of(n.entries).contains_key(d));
        assert(before.to_set().contains(d) <==> before.contains(d));
        lemma_map_asked(n, d);
        numbers_stay_tidy(n, d);
        let m = Numbers::none().asked_all(domains);
        assert(m == n.asked(d));
        assert forall|k: Seq<char>| #[trigger]
            map_of(m.entries).contains_key(k) <==> domains.contains(k) by {
            assert(map_of(n.entries).contains_key(k) <==> before.contains(k));
            assert(domains.contains(k) <==> before.contains(k) || k == d) by {
                assert(domains.to_set().contains(k) <==> domains.contains(k));
                assert(before.to_set().contains(k) <==> before.contains(k));
            }
        }
    } else {
        assert(domains.to_set() =~= Set::<Seq<char>>::empty());
        assert(domains =~= Seq::<Seq<char>>::empty());
    }
}

proof fn lemma_number_kept(domains: Seq<Seq<char>>, n: int, d: Seq<char>)
    requires
        domains.to_set().len() <= CACHE_CAPACITY,
        0 <= n <= domains.len(),
        domains.take(n).contains(d),
    ensures
        map_of(Numbers::none().asked_all(domains).entries).contains_key(d),
        map_of(Numbers::none().asked_all(domains).entries)[d] == map_of(
            Numbers::none().asked_all(domains.take(n)).entries,
        )[d],
    decreases domains.len(),
{
    lemma_from_start(domains);
    assert(domains.contains(d)) by {
        let i = choose|i: int| 0 <= i < domains.take(n).len() && domains.take(n)[i] == d;
        assert(domains[i] == d);
    }
    if n < domains.len() {
        let before = domains.drop_last();
        assert(before.take(n) =~= domains.take(n));
        lemma_set_of_prefix(domains, domains.len() - 1);
        assert(before =~= domains.take(domains.len() - 1));
        lemma_from_start(before);
        lemma_number_kept(before, n, d);
        let m = Numbers::none().asked_all(before);
        let e = domains.last();
        lemma_room(domains);
        lemma_map_asked(m, e);
        assert(has_key(m.entries, d));
    } else {
        assert(domains.take(n) =~= domains);
    }
}

/// There is room for the last name when it is asked for.
proof fn lemma_room(domains: Seq<Seq<char>>)
    requires
        domains.len() > 0,
        domains.to_set().len() <= CACHE_CAPACITY,
    ensures
        ({
            let m = Numbers::none().asked_all(domains.drop_last());
            lru_ok(m.entries, CACHE_CAPACITY as nat) && (has_key(m.entries, domains.last())
                || m.entries.len() < CACHE_CAPACITY)
        }),
{
    let before = domains.drop_last();
    assert(before =~= domains.take(domains.len() - 1));
    lemma_set_of_prefix(domains, domains.len() - 1);
    lemma_from_start(before);
    let m = Numbers::none().asked_all(before);
    if !has_key(m.entries, domains.last()) {
        assert(!map_of(m.entries).contains_key(domains.last()));
        assert(!before.contains(domains.last()));
        vstd::seq_lib::seq_to_set_is_finite(before);
        assert(domains =~= before.push(domains.last()));
        assert(domains.to_set() =~= before.to_set().insert(domains.last())) by {
            broadcast use vstd::seq_lib::group_seq_properties;

        }
        assert(!before.to_set().contains(domains.last()));
    }
}

proof fn lemma_set_of_prefix(domains: Seq<Seq<char>>, n: int)
    requires
        0 <= n <= domains.len(),
    ensures
        domains.take(n).to_set().len() <= domains.to_set().len(),
{
    vstd::seq_lib::seq_to_set_is_finite(domains);
    vstd::seq_lib::seq_to_set_is_finite(domains.take(n));
    assert(domains.take(n).to_set().subset_of(domains.to_set())) by {
        assert forall|d: Seq<char>| domains.take(n).to_set().contains(d) implies domains.to_set().contains(
            d,
        ) by {
            let i = choose|i: int| 0 <= i < domains.take(n).len() && domains.take(n)[i] == d;
            assert(domains[i] == d);
        }
    }
    vstd::set_lib::lemma_len_subset(domains.take(n).to_set(), domains.to_set());
}

/// As long as no more than a thousand names were asked for, a name has the same number at any time,
/// and two names never have the same.
pub proof fn each_name_its_own_number(domains: Seq<Seq<char>>, i: int, j: int)
    requires
        domains.to_set().len() <= CACHE_CAPACITY,
        0 <= i < domains.len(),
        0 <= j < domains.len(),
    ensures
        (Numbers::none().asked_all(domains.take(i)).number(domains[i]) == Numbers::none().asked_all(
            domains.take(j),
        ).number(domains[j])) <==> domains[i] == domains[j],
{
    lemma_number_at(domains, i);
    lemma_number_at(domains, j);
    lemma_from_start(domains);
    let n = Numbers::none().asked_all(domains);
    let (a, b) = (domains[i], domains[j]);
    assert(domains.contains(a) && domains.contains(b));
    assert(map_of(n.entries).contains_key(a) && map_of(n.entries).contains_key(b));
    crate::tables::lemma_key_pos(n.entries, a);
    crate::tables::lemma_key_pos(n.entries, b);
    if a != b {
        let (p, q) = (key_pos(n.entries, a), key_pos(n.entries, b));
        assert(p != q);
        if p < q {
            assert(n.entries[p].1 != n.entries[q].1);
        } else {
            assert(n.entries[q].1 != n.entries[p].1);
        }
    }
}

/// The number that a name is given when it is asked for is the one that it has in the end.
proof fn lemma_number_at(domains: Seq<Seq<char>>, i: int)
    requires
        domains.to_set().len() <= CACHE_CAPACITY,
        0 <= i < domains.len(),
    ensures
        Numbers::none().asked_all(domains.take(i)).number(domains[i]) == map_of(
            Numbers::none().asked_all(domains).entries,
        )[domains[i]],
{
    let upto = domains.take(i + 1);
    lemma_set_of_prefix(domains, i + 1);
    assert(upto.drop_last() =~= domains.take(i));
    assert(upto.last() == domains[i]);
    lemma_room(upto);
    lemma_map_asked(Numbers::none().asked_all(domains.take(i)), domains[i]);
    assert(upto.contains(domains[i])) by {
        assert(upto[i] == domains[i]);
    }
    lemma_number_kept(domains, i + 1, domains[i]);
}

proof fn lemma_name_with(s: Seq<(Seq<char>, u16)>, p: int)
    requires
        0 <= p < s.len(),
        forall|i: int| 0 <= i < p ==> (#[trigger] s[i]).1 != s[p].1,
    ensures
        name_with(s, s[p].1) == Some(s[p].0),
    decreases p,
{
    if p > 0 {
        assert(s[0].1 != s[p].1);
        let rest = s.drop_first();
        assert forall|i: int| 0 <= i < p - 1 implies (#[trigger] rest[i]).1 != rest[p - 1].1 by {
            assert(rest[i] == s[i + 1]);
        }
        lemma_name_with(rest, p - 1);
    }
}

/// As long as no more than a thousand names were asked for, the number that a name was given leads
/// back to it at any later time.
pub proof fn numbers_lead_back(domains: Seq<Seq<char>>, i: int)
    requires
        domains.to_set().len() <= CACHE_CAPACITY,
        0 <= i < domains.len(),
    ensures
        name_with(
            Numbers::none().asked_all(domains).entries,
            Numbers::none().asked_all(domains.take(i)).number(domains[i]),
        ) == Some(domains[i]),
{
    lemma_number_at(domains, i);
    lemma_from_start(domains);
    let s = Numbers::none().asked_all(domains).entries;
    assert(domains.contains(domains[i]));
    assert(map_of(s).contains_key(domains[i]));
    crate::tables::lemma_key_pos(s, domains[i]);
    lemma_name_with(s, key_pos(s, domains[i]));
}

proof fn lemma_loaded_is_reversed(s: Seq<(Seq<char>, u16)>)
    requires
        lru_ok(s, CACHE_CAPACITY as nat),
    ensures
        loaded(s) == s.reverse(),
    decreases s.len(),
{
    if s.len() > 0 {
        let rest = s.drop_last();
        lemma_loaded_is_reversed(rest);
        let r = rest.reverse();
        crate::tables::lemma_key_pos(r, s.last().0);
        if has_key(r, s.last().0) {
            let p = key_pos(r, s.last().0);
            assert(r[p] == s[rest.len() - 1 - p]);
        }
        assert(seq![(s.last().0, s.last().1)] + r =~= s.reverse());
    } else {
        assert(s.reverse() =~= Seq::empty());
    }
}

/// Every name has the same number after what was saved has been loaded, in whatever order the
/// names were saved.
pub proof fn numbers_survive(s: Seq<(Seq<char>, u16)>, saved: Seq<(Seq<char>, u16)>)
    requires
        lru_ok(s, CACHE_CAPACITY as nat),
        lru_ok(saved, CACHE_CAPACITY as nat),
        map_of(saved) == map_of(s),
    ensures
        map_of(loaded(saved)) == map_of(s),
{
    lemma_loaded_is_reversed(saved);
    let t = saved.reverse();
    assert forall|k: Seq<char>| has_key(t, k) == has_key(saved, k) && (has_key(t, k) ==> t[key_pos(
        t,
        k,
    )].1 == saved[key_pos(saved, k)].1) by {
        crate::tables::lemma_key_pos(saved, k);
        crate::tables::lemma_key_pos(t, k);
        if has_key(saved, k) {
            let p = key_pos(saved, k);
            assert(t[saved.len() - 1 - p] == saved[p]);
            assert(has_key(t, k));
        }
        if has_key(t, k) {
            let q = key_pos(t, k);
            assert(t[q] == saved[saved.len() - 1 - q]);
            assert(has_key(saved, k));
        }
    }
    assert(map_of(t) =~= map_of(saved));
}

// ---- Laws: calls ----
/// A name that is resolved gets an address under the prefix, the address leads back to the name, and
/// the same name gets the same address the next time, when it is no longer new.
pub proof fn resolved_names_are_found_again(
    f: &mut FakeIp,
    domain: String,
    r: (Ipv4Addr, bool),
    again: &mut FakeIp,
    same: String,
    s: (Ipv4Addr, bool),
    name: Option<String>,
    fake: bool,
)
    requires
        f.wf(),
        call_ensures(FakeIp::resolve_ipv4, (f, domain), r),
        *again == *final(f),
        same@ == domain@,
        call_ensures(FakeIp::resolve_ipv4, (again, same), s),
        call_ensures(FakeIp::lookup_domain_by_fake_ip, (&*final(f), IpAddr::V4(r.0)), name),
        call_ensures(FakeIp::is_fake_ip_v4, (&*final(f), r.0), fake),
    ensures
        r.0.bits / 0x1_0000 == old(f).prefix_v4,
        fake,
        name matches Some(n) && n@ == domain@,
        s.0 == r.0,
        !s.1,
{
    let g = *final(f);
    assert(g.index_of(domain@) == old(f).index_of(domain@));
    if !has_key(g.entries(), domain@) {
        lemma_lru_steps(old(f).entries(), CACHE_CAPACITY as nat, domain@, old(f).current);
        crate::tables::lemma_key_pos(old(f).entries(), domain@);
        crate::tables::lemma_key_pos_is(g.entries(), domain@, 0);
    }
}

/// The same of IPv6. A name has the same number in both families.
pub proof fn names_have_one_number(
    f: &mut FakeIp,
    domain: String,
    r: (Ipv4Addr, bool),
    again: &mut FakeIp,
    same: String,
    s: (Ipv6Addr, bool),
    name: Option<String>,
    fake: bool,
)
    requires
        f.wf(),
        call_ensures(FakeIp::resolve_ipv4, (f, domain), r),
        *again == *final(f),
        same@ == domain@,
        call_ensures(FakeIp::resolve_ipv6, (again, same), s),
        call_ensures(FakeIp::lookup_domain_by_fake_ip, (&*final(again), IpAddr::V6(s.0)), name),
        call_ensures(FakeIp::is_fake_ip_v6, (&*final(again), s.0), fake),
    ensures
        s.0.octets_spec().subrange(0, 14) == old(f).prefix_v6@,
        be_value(s.0.octets_spec().subrange(14, 16)) == r.0.bits % 0x1_0000,
        fake,
        name matches Some(n) && n@ == domain@,
{
    let i = old(f).index_of(domain@);
    crate::be::lemma_pow256_values();
    crate::be::be_round_trip(i as nat, 2);
    assert(s.0.octets_spec().subrange(0, 14) =~= old(f).prefix_v6@);
    assert(s.0.octets_spec().subrange(14, 16) =~= be_bytes(i as nat, 2));
    assert(r.0.bits % 0x1_0000 == i);
}

/// A name is new exactly the first time, and a new name takes the next number: its address is the next
/// one under the prefix.
pub proof fn new_names_take_the_next_address(
    f: &mut FakeIp,
    domain: String,
    r: (Ipv4Addr, bool),
)
    requires
        f.wf(),
        call_ensures(FakeIp::resolve_ipv4, (f, domain), r),
    ensures
        r.1 <==> !map_of(old(f).entries()).contains_key(domain@),
        r.1 ==> r.0.bits == old(f).prefix_v4 * 0x1_0000 + old(f).current,
        r.1 ==> final(f).current == (old(f).current + 1) % 0x1_0000,
        !r.1 ==> final(f).current == old(f).current && r.0.bits == old(f).prefix_v4 * 0x1_0000
            + map_of(old(f).entries())[domain@],
{
}

/// Fake addresses begin with the prefix that was given, and the first name gets number 1.
pub proof fn fake_addresses_begin_with_the_prefix(
    prefix_v4: [u8; 2],
    prefix_v6: [u8; 14],
    f: FakeIp,
    g: &mut FakeIp,
    domain: String,
    r: (Ipv4Addr, bool),
)
    requires
        call_ensures(FakeIp::new, (prefix_v4, prefix_v6, None), f),
        *g == f,
        call_ensures(FakeIp::resolve_ipv4, (g, domain), r),
    ensures
        r.1,
        r.0.bits == prefix_v4@[0] * 0x1_00_00_00 + prefix_v4@[1] * 0x1_00_00 + 1,
{
}

/// No name is found behind an address outside the prefix.
pub proof fn other_addresses_have_no_name(
    f: &FakeIp,
    ip: Ipv4Addr,
    r: Option<String>,
    ip6: Ipv6Addr,
    r6: Option<String>,
)
    requires
        call_ensures(FakeIp::lookup_domain_by_fake_ip, (f, IpAddr::V4(ip)), r),
        call_ensures(FakeIp::lookup_domain_by_fake_ip, (f, IpAddr::V6(ip6)), r6),
    ensures
        ip.bits / 0x1_0000 != f.prefix_v4 ==> r is None,
        ip6.octets_spec().subrange(0, 14) != f.prefix_v6@ ==> r6 is None,
{
}

/// What is saved and loaded again leads to the same numbers, and goes on with the next one.
pub proof fn saved_numbers_are_loaded(
    f: &FakeIp,
    saved: InnerCache,
    prefix_v4: [u8; 2],
    prefix_v6: [u8; 14],
    g: FakeIp,
)
    requires
        f.wf(),
        call_ensures(FakeIp::snapshot, (f,), saved),
        call_ensures(FakeIp::new, (prefix_v4, prefix_v6, Some(saved)), g),
    ensures
        g.current == f.current,
        map_of(g.entries()) == map_of(f.entries()),
        forall|d: Seq<char>| g.index_of(d) == f.index_of(d),
{
    numbers_survive(f.entries(), named(saved.cache@));
    assert forall|d: Seq<char>| g.index_of(d) == f.index_of(d) by {
        assert(map_of(g.entries()).contains_key(d) <==> map_of(f.entries()).contains_key(d));
        if has_key(f.entries(), d) {
            assert(map_of(g.entries())[d] == map_of(f.entries())[d]);
        }
    }
}

/// A thousand names keep their numbers: asking for one more takes the number of no name while there are
/// fewer, and then only of the one that was not used for longest. There are never more.
pub proof fn a_thousand_names_are_kept(
    f: &mut FakeIp,
    domain: String,
    r: (u16, bool),
    i: int,
)
    requires
        f.wf(),
        0 <= i < f.entries().len(),
        f.entries()[i].0 != domain@,
        call_ensures(FakeIp::lookup_or_alloc, (f, domain), r),
    ensures
        old(f).entries().len() <= 1000,
        old(f).entries().len() < 1000 || i < old(f).entries().len() - 1 || !r.1 ==> final(f).entries().contains(old(f).entries()[i]),
{
    let s = old(f).entries();
    let t = final(f).entries();
    crate::tables::lemma_key_pos(s, domain@);
    if has_key(s, domain@) {
        let p = key_pos(s, domain@);
        if i < p {
            assert(t[i + 1] == s[i]);
        } else {
            assert(t[i] == s[i]);
        }
    } else if s.len() < 1000 || i < s.len() - 1 {
        assert(t[i + 1] == s[i]);
    }
}

} // verus!
