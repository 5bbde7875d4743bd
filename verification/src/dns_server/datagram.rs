//! What a DNS server remembers, and how it answers.
use lru::LruCache;
use vstd::prelude::*;

use crate::deps::dns_proto::answered_message;
use crate::deps::dns_proto::decode_query;
use crate::deps::dns_proto::encode_answers;
use crate::deps::dns_proto::has_room;
use crate::deps::dns_proto::answers_below;
use crate::deps::dns_proto::measure_query;
use crate::deps::dns_proto::response_fits;
use crate::deps::dns_proto::sum_of;
use crate::deps::dns_proto::AnsweredView;
use crate::deps::dns_proto::QuerySizes;
use crate::deps::dns_proto::QuerySizesView;
use crate::deps::dns_proto::MAX_MESSAGE;
use crate::deps::dns_proto::query_message;
use crate::deps::dns_proto::QueryMessage;
use crate::deps::lru_cache::addr_cache_entries;
use crate::deps::lru_cache::addr_cache_get_or_insert;
use crate::deps::lru_cache::addr_cache_new;
use crate::deps::lru_cache::addr_cache_peek;
use crate::deps::lru_cache::addr_cache_put;
use crate::deps::lru_cache::addr_cap;
use crate::deps::lru_cache::addr_entries;
use crate::deps::lru_cache::addr_pairs;
use crate::deps::lru_cache::inserted;
use crate::deps::lru_cache::lemma_lru_steps;
use crate::deps::lru_cache::lru_ok;
use crate::deps::lru_cache::put;
use crate::deps::lru_cache::touched;
use crate::net::IpAddr;
use crate::net::Ipv4Addr;
use crate::net::Ipv6Addr;
use crate::tables::has_key;
use crate::tables::key_pos;
use crate::tables::named;
use crate::tables::NameMap;
use crate::text::same_text;

verus! {

/// How many addresses are remembered with their names.
pub const CACHE_CAPACITY: usize = 1024;

// ---- Names and their addresses ----
/// An address, and until when it is good, in seconds since 1970.
#[derive(Clone, Copy, Debug)]
pub struct CacheEntry<T> {
    pub value: T,
    pub expires_at: u64,
}

/// The entries that are good after `now`, in their order.
pub open spec fn unexpired<T>(s: Seq<CacheEntry<T>>, now: u64) -> Seq<CacheEntry<T>>
    decreases s.len(),
{
    if s.len() == 0 {
        Seq::empty()
    } else if s.last().expires_at > now {
        unexpired(s.drop_last(), now).push(s.last())
    } else {
        unexpired(s.drop_last(), now)
    }
}

/// The addresses of entries.
pub open spec fn values<T>(s: Seq<CacheEntry<T>>) -> Seq<T> {
    Seq::new(s.len(), |i: int| s[i].value)
}

/// Entries for addresses that are all good until `expires_at`.
pub open spec fn fresh<T>(ips: Seq<T>, expires_at: u64) -> Seq<CacheEntry<T>> {
    Seq::new(ips.len(), |i: int| CacheEntry { value: ips[i], expires_at })
}

/// The entries that are good after `now`.
fn keep_unexpired<T: Copy>(s: &Vec<CacheEntry<T>>, now: u64) -> (r: Vec<CacheEntry<T>>)
    ensures
        r@ == unexpired(s@, now),
{
    let mut r: Vec<CacheEntry<T>> = Vec::new();
    let mut i: usize = 0;
    assert(s@.take(0) =~= Seq::<CacheEntry<T>>::empty());
    while i < s.len()
        invariant
            i <= s@.len(),
            r@ == unexpired(s@.take(i as int), now),
        decreases s@.len() - i,
    {
        assert(s@.take(i + 1).drop_last() =~= s@.take(i as int));
        if s[i].expires_at > now {
            r.push(s[i]);
        }
        i += 1;
    }
    assert(s@.take(i as int) =~= s@);
    r
}

/// The addresses of names.
pub struct ForwardCache<T> {
    pub entries: NameMap<Vec<CacheEntry<T>>>,
}

/// Names with their entries.
pub open spec fn listing<T>(s: Seq<(String, Vec<CacheEntry<T>>)>) -> Seq<
    (Seq<char>, Seq<CacheEntry<T>>),
> {
    Seq::new(s.len(), |i: int| (s[i].0@, s[i].1@))
}

/// What is left of saved names after `now`: those that have an entry that is good.
pub open spec fn pruned<T>(s: Seq<(Seq<char>, Seq<CacheEntry<T>>)>, now: u64) -> Map<
    Seq<char>,
    Seq<CacheEntry<T>>,
>
    decreases s.len(),
{
    if s.len() == 0 {
        Map::empty()
    } else {
        let m = pruned(s.drop_last(), now);
        let kept = unexpired(s.last().1, now);
        if kept.len() > 0 {
            m.insert(s.last().0, kept)
        } else {
            m
        }
    }
}

/// The good addresses of a name; nothing where there is none.
pub open spec fn looked_up<T>(m: Map<Seq<char>, Seq<CacheEntry<T>>>, domain: Seq<char>, now: u64) -> Option<
    Seq<T>,
> {
    if m.contains_key(domain) && unexpired(m[domain], now).len() > 0 {
        Some(values(unexpired(m[domain], now)))
    } else {
        None
    }
}

impl<T> ForwardCache<T> {
    pub open spec fn wf(&self) -> bool {
        self.entries.wf()
    }

    /// The entries of each name.
    pub open spec fn map(&self) -> Map<Seq<char>, Seq<CacheEntry<T>>> {
        self.entries@.map_values(|v: Vec<CacheEntry<T>>| v@)
    }

    pub fn new() -> (r: Self)
        ensures
            r.wf(),
            r.map() == Map::<Seq<char>, Seq<CacheEntry<T>>>::empty(),
    {
        let r = ForwardCache { entries: NameMap::new() };
        assert(r.map() =~= Map::<Seq<char>, Seq<CacheEntry<T>>>::empty());
        r
    }
}

impl<T: Copy> ForwardCache<T> {
    /// What is left of saved names after `now`.
    pub fn load(saved: Vec<(String, Vec<CacheEntry<T>>)>, now: u64) -> (r: Self)
        ensures
            r.wf(),
            r.map() == pruned(listing(saved@), now),
    {
        let mut r = ForwardCache::new();
        let mut i: usize = 0;
        let ghost all = listing(saved@);
        assert(all.take(0) =~= Seq::<(Seq<char>, Seq<CacheEntry<T>>)>::empty());
        while i < saved.len()
            invariant
                i <= saved@.len(),
                all == listing(saved@),
                r.wf(),
                r.map() == pruned(all.take(i as int), now),
            decreases saved@.len() - i,
        {
            assert(all.take(i + 1).drop_last() =~= all.take(i as int));
            let kept = keep_unexpired(&saved[i].1, now);
            if kept.len() > 0 {
                let ghost before = r.map();
                r.entries.insert(saved[i].0.clone(), kept);
                assert(r.map() =~= before.insert(saved@[i as int].0@, kept@));
            }
            i += 1;
        }
        assert(all.take(i as int) =~= all);
        r
    }

    /// The addresses of a name that are good after `now`.
    pub fn lookup(&self, domain: &String, now: u64) -> (r: Option<Vec<T>>)
        ensures
            match r {
                Some(ips) => looked_up(self.map(), domain@, now) == Some(ips@),
                None => looked_up(self.map(), domain@, now) is None,
            },
    {
        match self.entries.get(domain) {
            Some(list) => {
                let kept = keep_unexpired(list, now);
                assert(self.map()[domain@] == list@);
                if kept.len() == 0 {
                    return None;
                }
                let mut ips: Vec<T> = Vec::new();
                let mut i: usize = 0;
                while i < kept.len()
                    invariant
                        i <= kept@.len(),
                        ips@ == values(kept@).take(i as int),
                    decreases kept@.len() - i,
                {
                    ips.push(kept[i].value);
                    assert(values(kept@).take(i + 1) =~= values(kept@).take(i as int).push(
                        kept@[i as int].value,
                    ));
                    i += 1;
                }
                assert(values(kept@).take(i as int) =~= values(kept@));
                Some(ips)
            },
            None => None,
        }
    }

    /// Gives a name the addresses `ips`, good for `ttl` seconds, in place of those that it had.
    pub fn update(&mut self, domain: String, ips: &[T], ttl: u32, now: u64)
        requires
            old(self).wf(),
            now + ttl <= u64::MAX,
        ensures
            final(self).wf(),
            final(self).map() == old(self).map().insert(domain@, fresh(ips@, (now + ttl) as u64)),
    {
        let expires_at: u64 = now + ttl as u64;
        let mut list: Vec<CacheEntry<T>> = Vec::new();
        let mut i: usize = 0;
        while i < ips.len()
            invariant
                i <= ips@.len(),
                list@ == fresh(ips@, expires_at).take(i as int),
            decreases ips@.len() - i,
        {
            list.push(CacheEntry { value: ips[i], expires_at });
            assert(fresh(ips@, expires_at).take(i + 1) =~= fresh(ips@, expires_at).take(
                i as int,
            ).push(CacheEntry { value: ips@[i as int], expires_at }));
            i += 1;
        }
        assert(fresh(ips@, expires_at).take(i as int) =~= fresh(ips@, expires_at));
        self.entries.insert(domain, list);
        assert(self.map() =~= old(self).map().insert(domain@, list@));
    }
}

// ---- Addresses and their names ----
/// The list after saved addresses have been put one after the other.
pub open spec fn reloaded(s: Seq<(u128, Seq<char>)>) -> Seq<(u128, Seq<char>)>
    decreases s.len(),
{
    if s.len() == 0 {
        Seq::empty()
    } else {
        put(reloaded(s.drop_last()), CACHE_CAPACITY as nat, s.last().0, s.last().1)
    }
}

/// The list after an address has been seen with a name. An address keeps the name it has.
pub open spec fn seen(s: Seq<(u128, Seq<char>)>, ip: u128, name: Seq<char>) -> Seq<
    (u128, Seq<char>),
> {
    if has_key(s, ip) {
        touched(s, ip)
    } else {
        inserted(s, CACHE_CAPACITY as nat, ip, name)
    }
}

/// Whether the list has an address under another name, or not at all.
pub open spec fn is_news(s: Seq<(u128, Seq<char>)>, ip: u128, name: Seq<char>) -> bool {
    !(has_key(s, ip) && s[key_pos(s, ip)].1 == name)
}

/// The list after addresses have been seen with a name, and whether one of them was news.
pub open spec fn seen_all(s: Seq<(u128, Seq<char>)>, ips: Seq<u128>, name: Seq<char>) -> (
    Seq<(u128, Seq<char>)>,
    bool,
)
    decreases ips.len(),
{
    if ips.len() == 0 {
        (s, false)
    } else {
        let (t, news) = seen_all(s, ips.drop_last(), name);
        (seen(t, ips.last(), name), news || is_news(t, ips.last(), name))
    }
}

pub open spec fn reverse_ok(c: LruCache<u128, String>) -> bool {
    addr_cap(c) == CACHE_CAPACITY && lru_ok(addr_entries(c), CACHE_CAPACITY as nat)
}

/// Puts saved addresses one after the other into a new list.
pub fn load_reverse(saved: &Vec<(u128, String)>) -> (c: LruCache<u128, String>)
    ensures
        reverse_ok(c),
        addr_entries(c) == reloaded(addr_pairs(saved@)),
{
    let mut c = addr_cache_new(CACHE_CAPACITY);
    let mut i: usize = 0;
    let ghost all = addr_pairs(saved@);
    assert(all.take(0) =~= Seq::<(u128, Seq<char>)>::empty());
    while i < saved.len()
        invariant
            i <= saved@.len(),
            all == addr_pairs(saved@),
            reverse_ok(c),
            addr_entries(c) == reloaded(all.take(i as int)),
        decreases saved@.len() - i,
    {
        assert(all.take(i + 1).drop_last() =~= all.take(i as int));
        proof {
            lemma_lru_steps(
                addr_entries(c),
                CACHE_CAPACITY as nat,
                saved@[i as int].0,
                saved@[i as int].1@,
            );
        }
        addr_cache_put(&mut c, saved[i].0, saved[i].1.clone());
        i += 1;
    }
    assert(all.take(i as int) =~= all);
    c
}

/// Notes an address that was answered for a name. Says whether it was news.
fn note(c: &mut LruCache<u128, String>, ip: u128, name: &String) -> (news: bool)
    requires
        reverse_ok(*old(c)),
    ensures
        reverse_ok(*final(c)),
        addr_entries(*final(c)) == seen(addr_entries(*old(c)), ip, name@),
        news == is_news(addr_entries(*old(c)), ip, name@),
{
    let known = match addr_cache_peek(c, ip) {
        Some(n) => same_text(n.as_str(), name.as_str()),
        None => false,
    };
    proof {
        lemma_lru_steps(addr_entries(*c), CACHE_CAPACITY as nat, ip, name@);
    }
    addr_cache_get_or_insert(c, ip, name.clone());
    !known
}

/// Notes addresses that were answered for a name. Says whether one of them was news.
pub fn note_all(c: &mut LruCache<u128, String>, ips: &Vec<u128>, name: &String) -> (news: bool)
    requires
        reverse_ok(*old(c)),
    ensures
        reverse_ok(*final(c)),
        (addr_entries(*final(c)), news) == seen_all(addr_entries(*old(c)), ips@, name@),
{
    let mut news = false;
    let mut i: usize = 0;
    let ghost before = addr_entries(*c);
    assert(ips@.take(0) =~= Seq::<u128>::empty());
    while i < ips.len()
        invariant
            i <= ips@.len(),
            reverse_ok(*c),
            (addr_entries(*c), news) == seen_all(before, ips@.take(i as int), name@),
        decreases ips@.len() - i,
    {
        assert(ips@.take(i + 1).drop_last() =~= ips@.take(i as int));
        if note(c, ips[i], name) {
            news = true;
        }
        i += 1;
    }
    assert(ips@.take(i as int) =~= ips@);
    news
}

/// The numbers of IPv4 addresses.
pub open spec fn numbers4(ips: Seq<Ipv4Addr>) -> Seq<u128> {
    Seq::new(ips.len(), |i: int| ips[i].bits as u128)
}

/// The numbers of IPv6 addresses.
pub open spec fn numbers6(ips: Seq<Ipv6Addr>) -> Seq<u128> {
    Seq::new(ips.len(), |i: int| ips[i].bits)
}

fn numbers_v4(ips: &Vec<Ipv4Addr>) -> (r: Vec<u128>)
    ensures
        r@ == numbers4(ips@),
{
    let mut r: Vec<u128> = Vec::new();
    let mut i: usize = 0;
    while i < ips.len()
        invariant
            i <= ips@.len(),
            r@ == numbers4(ips@).take(i as int),
        decreases ips@.len() - i,
    {
        r.push(ips[i].bits as u128);
        assert(numbers4(ips@).take(i + 1) =~= numbers4(ips@).take(i as int).push(
            ips@[i as int].bits as u128,
        ));
        i += 1;
    }
    assert(numbers4(ips@).take(i as int) =~= numbers4(ips@));
    r
}

fn numbers_v6(ips: &Vec<Ipv6Addr>) -> (r: Vec<u128>)
    ensures
        r@ == numbers6(ips@),
{
    let mut r: Vec<u128> = Vec::new();
    let mut i: usize = 0;
    while i < ips.len()
        invariant
            i <= ips@.len(),
            r@ == numbers6(ips@).take(i as int),
        decreases ips@.len() - i,
    {
        r.push(ips[i].bits);
        assert(numbers6(ips@).take(i + 1) =~= numbers6(ips@).take(i as int).push(
            ips@[i as int].bits,
        ));
        i += 1;
    }
    assert(numbers6(ips@).take(i as int) =~= numbers6(ips@));
    r
}

// ---- The server ----
/// What was saved of a server, as far as it could be read. Addresses are numbers.
pub struct SavedCaches {
    pub reverse_v4: Option<Vec<(u128, String)>>,
    pub reverse_v6: Option<Vec<(u128, String)>>,
    pub forward_v4: Option<Vec<(String, Vec<CacheEntry<Ipv4Addr>>)>>,
    pub forward_v6: Option<Vec<(String, Vec<CacheEntry<Ipv6Addr>>)>>,
}

pub open spec fn saved_reverse(s: Option<Vec<(u128, String)>>) -> Seq<(u128, Seq<char>)> {
    match s {
        Some(v) => reloaded(addr_pairs(v@)),
        None => Seq::empty(),
    }
}

pub open spec fn saved_forward<T>(s: Option<Vec<(String, Vec<CacheEntry<T>>)>>, now: u64) -> Map<
    Seq<char>,
    Seq<CacheEntry<T>>,
> {
    match s {
        Some(v) => pruned(listing(v@), now),
        None => Map::empty(),
    }
}

/// The addresses of names and the names of addresses, and for how many seconds an answer is good.
pub struct DnsServer {
    pub ttl: u32,
    pub reverse_v4: LruCache<u128, String>,
    pub reverse_v6: LruCache<u128, String>,
    pub forward_v4: ForwardCache<Ipv4Addr>,
    pub forward_v6: ForwardCache<Ipv6Addr>,
}

/// A query message while it is being answered.
pub struct DnsExchange {
    /// The names, in lower case, and the types that are asked for.
    pub queries: Vec<(String, u16)>,
    /// The number of the question that is next.
    pub next: usize,
    pub response_code: u16,
    /// The addresses so far, each with the number of its question.
    pub answers: Vec<(usize, IpAddr)>,
    /// Whether the caches should be written soon.
    pub notify: bool,
}

/// What is done next for a message.
pub enum DnsStep {
    /// Go on with the next question.
    Again,
    /// The IPv4 addresses of a name have to be resolved.
    ResolveV4(String),
    /// The IPv6 addresses of a name have to be resolved.
    ResolveV6(String),
    /// All questions are done.
    Finished,
}

/// What goes back for a message.
pub enum DnsReply {
    Send(Vec<u8>),
    /// Nothing: what came is no message, or no response to it can be written.
    Nothing,
    /// Nothing: the response has no room.
    TooLong,
}

/// IPv4 addresses as answers to the question with the number `q`.
pub open spec fn answers4(q: usize, ips: Seq<Ipv4Addr>) -> Seq<(usize, IpAddr)> {
    Seq::new(ips.len(), |i: int| (q, IpAddr::V4(ips[i])))
}

/// IPv6 addresses as answers to the question with the number `q`.
pub open spec fn answers6(q: usize, ips: Seq<Ipv6Addr>) -> Seq<(usize, IpAddr)> {
    Seq::new(ips.len(), |i: int| (q, IpAddr::V6(ips[i])))
}

fn push_v4(answers: &mut Vec<(usize, IpAddr)>, q: usize, ips: &Vec<Ipv4Addr>)
    ensures
        final(answers)@ == old(answers)@ + answers4(q, ips@),
{
    let ghost before = answers@;
    let mut i: usize = 0;
    assert(answers@ =~= before + answers4(q, ips@).take(0));
    while i < ips.len()
        invariant
            i <= ips@.len(),
            answers@ == before + answers4(q, ips@).take(i as int),
        decreases ips@.len() - i,
    {
        answers.push((q, IpAddr::V4(ips[i])));
        assert(answers@ =~= before + answers4(q, ips@).take(i + 1));
        i += 1;
    }
    assert(answers4(q, ips@).take(i as int) =~= answers4(q, ips@));
}

fn push_v6(answers: &mut Vec<(usize, IpAddr)>, q: usize, ips: &Vec<Ipv6Addr>)
    ensures
        final(answers)@ == old(answers)@ + answers6(q, ips@),
{
    let ghost before = answers@;
    let mut i: usize = 0;
    assert(answers@ =~= before + answers6(q, ips@).take(0));
    while i < ips.len()
        invariant
            i <= ips@.len(),
            answers@ == before + answers6(q, ips@).take(i as int),
        decreases ips@.len() - i,
    {
        answers.push((q, IpAddr::V6(ips[i])));
        assert(answers@ =~= before + answers6(q, ips@).take(i + 1));
        i += 1;
    }
    assert(answers6(q, ips@).take(i as int) =~= answers6(q, ips@));
}

impl DnsExchange {
    pub open spec fn wf(&self) -> bool {
        &&& self.next <= self.queries@.len()
        &&& answers_below(self.answers@, self.next as nat)
    }

    /// Whether the questions are those of the message `buf`.
    pub open spec fn is_for(&self, buf: Seq<u8>) -> bool {
        query_message(buf) matches Some(m) && named(self.queries@) == m.queries
    }

    /// Whether this is `before` with its question done: with `answers` more answers.
    pub open spec fn moved_on(
        &self,
        before: DnsExchange,
        response_code: u16,
        answers: Seq<(usize, IpAddr)>,
        news: bool,
    ) -> bool {
        &&& self.queries == before.queries
        &&& self.next == before.next + 1
        &&& self.response_code == response_code
        &&& self.answers@ == before.answers@ + answers
        &&& self.notify == (before.notify || news)
    }

    /// Begins with a message.
    pub fn of(message: QueryMessage) -> (r: DnsExchange)
        ensures
            r.queries == message.queries,
            r.next == 0,
            r.response_code == 0,
            r.answers@.len() == 0,
            !r.notify,
            r.wf(),
    {
        DnsExchange {
            queries: message.queries,
            next: 0,
            response_code: 0,
            answers: Vec::new(),
            notify: false,
        }
    }

    /// Begins with the bytes of a message. What is no message is skipped.
    pub fn begin(buf: &[u8]) -> (r: Option<DnsExchange>)
        ensures
            match r {
                Some(e) => {
                    &&& e.is_for(buf@)
                    &&& e.next == 0
                    &&& e.response_code == 0
                    &&& e.answers@.len() == 0
                    &&& !e.notify
                    &&& e.wf()
                },
                None => query_message(buf@) is None,
            },
    {
        match decode_query(buf) {
            Some(m) => Some(DnsExchange::of(m)),
            None => None,
        }
    }
}

impl DnsServer {
    pub open spec fn wf(&self) -> bool {
        &&& reverse_ok(self.reverse_v4)
        &&& reverse_ok(self.reverse_v6)
        &&& self.forward_v4.wf()
        &&& self.forward_v6.wf()
    }

    /// Begins with what was saved, without the addresses that are no longer good at `now`.
    pub fn new(ttl: u32, saved: SavedCaches, now: u64) -> (r: DnsServer)
        ensures
            r.wf(),
            r.ttl == ttl,
            addr_entries(r.reverse_v4) == saved_reverse(saved.reverse_v4),
            addr_entries(r.reverse_v6) == saved_reverse(saved.reverse_v6),
            r.forward_v4.map() == saved_forward(saved.forward_v4, now),
            r.forward_v6.map() == saved_forward(saved.forward_v6, now),
    {
        let none: Vec<(u128, String)> = Vec::new();
        proof {
            assert(addr_pairs(none@) =~= Seq::<(u128, Seq<char>)>::empty());
        }
        let reverse_v4 = match &saved.reverse_v4 {
            Some(v) => load_reverse(v),
            None => load_reverse(&none),
        };
        let reverse_v6 = match &saved.reverse_v6 {
            Some(v) => load_reverse(v),
            None => load_reverse(&none),
        };
        let forward_v4 = match saved.forward_v4 {
            Some(v) => ForwardCache::load(v, now),
            None => ForwardCache::new(),
        };
        let forward_v6 = match saved.forward_v6 {
            Some(v) => ForwardCache::load(v, now),
            None => ForwardCache::new(),
        };
        DnsServer { ttl, reverse_v4, reverse_v6, forward_v4, forward_v6 }
    }

    /// The names of addresses as they are saved.
    pub fn saved_names(&self) -> (r: (Vec<(u128, String)>, Vec<(u128, String)>))
        ensures
            addr_pairs(r.0@) == addr_entries(self.reverse_v4),
            addr_pairs(r.1@) == addr_entries(self.reverse_v6),
    {
        (addr_cache_entries(&self.reverse_v4), addr_cache_entries(&self.reverse_v6))
    }

    pub fn lookup_ipv4_cache(&self, domain: &String, now: u64) -> (r: Option<Vec<Ipv4Addr>>)
        ensures
            match r {
                Some(ips) => looked_up(self.forward_v4.map(), domain@, now) == Some(ips@),
                None => looked_up(self.forward_v4.map(), domain@, now) is None,
            },
    {
        self.forward_v4.lookup(domain, now)
    }

    pub fn lookup_ipv6_cache(&self, domain: &String, now: u64) -> (r: Option<Vec<Ipv6Addr>>)
        ensures
            match r {
                Some(ips) => looked_up(self.forward_v6.map(), domain@, now) == Some(ips@),
                None => looked_up(self.forward_v6.map(), domain@, now) is None,
            },
    {
        self.forward_v6.lookup(domain, now)
    }

    pub fn update_ipv4_cache(&mut self, domain: String, ips: &[Ipv4Addr], ttl: u32, now: u64)
        requires
            old(self).wf(),
            now + ttl <= u64::MAX,
        ensures
            final(self).wf(),
            final(self).forward_v4.map() == old(self).forward_v4.map().insert(
                domain@,
                fresh(ips@, (now + ttl) as u64),
            ),
            final(self).ttl == old(self).ttl,
            final(self).reverse_v4 == old(self).reverse_v4,
            final(self).reverse_v6 == old(self).reverse_v6,
            final(self).forward_v6 == old(self).forward_v6,
    {
        self.forward_v4.update(domain, ips, ttl, now);
    }

    pub fn update_ipv6_cache(&mut self, domain: String, ips: &[Ipv6Addr], ttl: u32, now: u64)
        requires
            old(self).wf(),
            now + ttl <= u64::MAX,
        ensures
            final(self).wf(),
            final(self).forward_v6.map() == old(self).forward_v6.map().insert(
                domain@,
                fresh(ips@, (now + ttl) as u64),
            ),
            final(self).ttl == old(self).ttl,
            final(self).reverse_v4 == old(self).reverse_v4,
            final(self).reverse_v6 == old(self).reverse_v6,
            final(self).forward_v4 == old(self).forward_v4,
    {
        self.forward_v6.update(domain, ips, ttl, now);
    }

    /// Looks at the next question of a message. One whose addresses are remembered is answered;
    /// one that is not for addresses is not implemented.
    pub fn on_query(&self, ex: &mut DnsExchange, now: u64) -> (r: DnsStep)
        requires
            old(ex).wf(),
        ensures
            final(ex).wf(),
            if old(ex).next == old(ex).queries@.len() {
                r is Finished && *final(ex) == *old(ex)
            } else {
                let q = old(ex).next;
                let (name, qtype) = old(ex).queries@[q as int];
                if qtype == 1 {
                    match looked_up(self.forward_v4.map(), name@, now) {
                        Some(ips) => r is Again && final(ex).moved_on(
                            *old(ex),
                            old(ex).response_code,
                            answers4(q, ips),
                            false,
                        ),
                        None => r matches DnsStep::ResolveV4(n) && n@ == name@ && *final(ex)
                            == *old(ex),
                    }
                } else if qtype == 28 {
                    match looked_up(self.forward_v6.map(), name@, now) {
                        Some(ips) => r is Again && final(ex).moved_on(
                            *old(ex),
                            old(ex).response_code,
                            answers6(q, ips),
                            false,
                        ),
                        None => r matches DnsStep::ResolveV6(n) && n@ == name@ && *final(ex)
                            == *old(ex),
                    }
                } else {
                    r is Again && final(ex).moved_on(*old(ex), 4, Seq::empty(), false)
                }
            },
    {
        if ex.next == ex.queries.len() {
            return DnsStep::Finished;
        }
        let q: usize = ex.next;
        let qtype: u16 = ex.queries[q].1;
        if qtype == 1 {
            match self.lookup_ipv4_cache(&ex.queries[q].0, now) {
                Some(ips) => {
                    push_v4(&mut ex.answers, q, &ips);
                },
                None => {
                    return DnsStep::ResolveV4(ex.queries[q].0.clone());
                },
            }
        } else if qtype == 28 {
            match self.lookup_ipv6_cache(&ex.queries[q].0, now) {
                Some(ips) => {
                    push_v6(&mut ex.answers, q, &ips);
                },
                None => {
                    return DnsStep::ResolveV6(ex.queries[q].0.clone());
                },
            }
        } else {
            ex.response_code = 4;
            assert(ex.answers@ =~= old(ex).answers@ + Seq::<(usize, IpAddr)>::empty());
        }
        ex.next = q + 1;
        DnsStep::Again
    }

    /// The IPv4 addresses of the next question were resolved, or could not be. What was resolved
    /// is answered and remembered.
    pub fn on_resolved_v4(
        &mut self,
        ex: &mut DnsExchange,
        resolved: Option<Vec<Ipv4Addr>>,
        now: u64,
    )
        requires
            old(self).wf(),
            old(ex).wf(),
            old(ex).next < old(ex).queries@.len(),
            now + old(self).ttl <= u64::MAX,
        ensures
            final(self).wf(),
            final(ex).wf(),
            final(self).ttl == old(self).ttl,
            final(self).reverse_v6 == old(self).reverse_v6,
            final(self).forward_v6 == old(self).forward_v6,
            match resolved {
                Some(ips) => {
                    let name = old(ex).queries@[old(ex).next as int].0@;
                    let (rev, news) = seen_all(
                        addr_entries(old(self).reverse_v4),
                        numbers4(ips@),
                        name,
                    );
                    &&& final(ex).moved_on(
                        *old(ex),
                        old(ex).response_code,
                        answers4(old(ex).next, ips@),
                        news,
                    )
                    &&& final(self).forward_v4.map() == old(self).forward_v4.map().insert(
                        name,
                        fresh(ips@, (now + old(self).ttl) as u64),
                    )
                    &&& addr_entries(final(self).reverse_v4) == rev
                },
                None => final(ex).moved_on(*old(ex), 3, Seq::empty(), false)
                    && final(self).forward_v4 == old(self).forward_v4 && final(self).reverse_v4
                    == old(self).reverse_v4,
            },
    {
        let q: usize = ex.next;
        assert(q < ex.queries.len());
        match resolved {
            Some(ips) => {
                let name = ex.queries[q].0.clone();
                let ttl: u32 = self.ttl;
                self.update_ipv4_cache(name.clone(), ips.as_slice(), ttl, now);
                let news = note_all(&mut self.reverse_v4, &numbers_v4(&ips), &name);
                if news {
                    ex.notify = true;
                }
                push_v4(&mut ex.answers, q, &ips);
            },
            None => {
                ex.response_code = 3;
                assert(ex.answers@ =~= old(ex).answers@ + Seq::<(usize, IpAddr)>::empty());
            },
        }
        ex.next = q + 1;
    }

    /// The IPv6 addresses of the next question were resolved, or could not be. What was resolved
    /// is answered and remembered.
    pub fn on_resolved_v6(
        &mut self,
        ex: &mut DnsExchange,
        resolved: Option<Vec<Ipv6Addr>>,
        now: u64,
    )
        requires
            old(self).wf(),
            old(ex).wf(),
            old(ex).next < old(ex).queries@.len(),
            now + old(self).ttl <= u64::MAX,
        ensures
            final(self).wf(),
            final(ex).wf(),
            final(self).ttl == old(self).ttl,
            final(self).reverse_v4 == old(self).reverse_v4,
            final(self).forward_v4 == old(self).forward_v4,
            match resolved {
                Some(ips) => {
                    let name = old(ex).queries@[old(ex).next as int].0@;
                    let (rev, news) = seen_all(
                        addr_entries(old(self).reverse_v6),
                        numbers6(ips@),
                        name,
                    );
                    &&& final(ex).moved_on(
                        *old(ex),
                        old(ex).response_code,
                        answers6(old(ex).next, ips@),
                        news,
                    )
                    &&& final(self).forward_v6.map() == old(self).forward_v6.map().insert(
                        name,
                        fresh(ips@, (now + old(self).ttl) as u64),
                    )
                    &&& addr_entries(final(self).reverse_v6) == rev
                },
                None => final(ex).moved_on(*old(ex), 3, Seq::empty(), false)
                    && final(self).forward_v6 == old(self).forward_v6 && final(self).reverse_v6
                    == old(self).reverse_v6,
            },
    {
        let q: usize = ex.next;
        assert(q < ex.queries.len());
        match resolved {
            Some(ips) => {
                let name = ex.queries[q].0.clone();
                let ttl: u32 = self.ttl;
                self.update_ipv6_cache(name.clone(), ips.as_slice(), ttl, now);
                let news = note_all(&mut self.reverse_v6, &numbers_v6(&ips), &name);
                if news {
                    ex.notify = true;
                }
                push_v6(&mut ex.answers, q, &ips);
            },
            None => {
                ex.response_code = 3;
                assert(ex.answers@ =~= old(ex).answers@ + Seq::<(usize, IpAddr)>::empty());
            },
        }
        ex.next = q + 1;
    }

    /// The response to the message `buf`; nothing where it cannot be written. The options in its
    /// extension record may stand in any order.
    pub fn respond(&self, buf: &[u8], ex: &DnsExchange) -> (r: Option<Vec<u8>>)
        requires
            has_room(buf@, ex.answers@),
        ensures
            match r {
                Some(b) => answered_message(buf@, ex.response_code, self.ttl, ex.answers@) matches Some(
                    m,
                ) && m.spelt_by(b@),
                None => answered_message(buf@, ex.response_code, self.ttl, ex.answers@) is None,
            },
            r matches Some(b) ==> b@.len() >= 12 && buf@.len() >= 12 && b@.subrange(0, 2)
                == buf@.subrange(0, 2) && b@[2] >= 0x80 && b@[3] % 16 == ex.response_code % 16,
            ex.wf() && ex.is_for(buf@) && response_fits(buf@, ex.answers@) ==> r is Some,
    {
        encode_answers(buf, ex.response_code, self.ttl, ex.answers.as_slice())
    }

    /// As `respond`, for any message and any answers: `TooLong` where `respond` does not take them.
    /// A message whose exchange was begun on it is answered, where its response fits.
    pub fn reply(&self, buf: &[u8], ex: &DnsExchange) -> (r: DnsReply)
        ensures
            match r {
                DnsReply::Send(b) => {
                    &&& has_room(buf@, ex.answers@)
                    &&& answered_message(
                        buf@,
                        ex.response_code,
                        self.ttl,
                        ex.answers@,
                    ) matches Some(m) && m.spelt_by(b@)
                    &&& b@.len() >= 12
                    &&& b@.subrange(0, 2) == buf@.subrange(0, 2)
                    &&& b@[2] >= 0x80
                    &&& b@[3] % 16 == ex.response_code % 16
                },
                DnsReply::Nothing => has_room(buf@, ex.answers@) && answered_message(
                    buf@,
                    ex.response_code,
                    self.ttl,
                    ex.answers@,
                ) is None,
                DnsReply::TooLong => !has_room(buf@, ex.answers@),
            },
            ex.wf() && ex.is_for(buf@) && response_fits(buf@, ex.answers@) ==> r is Send,
    {
        if let Some(sizes) = measure_query(buf) {
            if sizes.behind.len() > 0 && !sizes_fit(&sizes, &ex.answers) {
                return DnsReply::TooLong;
            }
        }
        match self.respond(buf, ex) {
            Some(b) => DnsReply::Send(b),
            None => DnsReply::Nothing,
        }
    }
}

/// Adds up sizes, each with `more` bytes, onto `start`; nothing where one is not known, or where it is
/// more than a message has room for.
fn add_sizes(start: usize, sizes: &Vec<Option<usize>>, more: usize) -> (r: Option<usize>)
    requires
        start <= MAX_MESSAGE,
        more <= MAX_MESSAGE,
    ensures
        match r {
            Some(n) => start <= n <= MAX_MESSAGE && sum_of(sizes@, more as nat) == Some(
                (n - start) as nat,
            ),
            None => sum_of(sizes@, more as nat) matches Some(s) ==> start + s > MAX_MESSAGE,
        },
{
    let mut total: usize = start;
    let mut i: usize = 0;
    assert(sizes@.take(0) =~= Seq::empty());
    while i < sizes.len()
        invariant
            i <= sizes@.len(),
            start <= total <= MAX_MESSAGE,
            more <= MAX_MESSAGE,
            sum_of(sizes@.take(i as int), more as nat) == Some((total - start) as nat),
        decreases sizes@.len() - i,
    {
        assert(sizes@.take(i + 1).drop_last() =~= sizes@.take(i as int));
        match sizes[i] {
            Some(n) => {
                if n > MAX_MESSAGE || total + n + more > MAX_MESSAGE {
                    proof {
                        lemma_sum_grows(sizes@, more as nat, i + 1);
                    }
                    return None;
                }
                total = total + n + more;
            },
            None => {
                proof {
                    lemma_sum_grows(sizes@, more as nat, i + 1);
                }
                return None;
            },
        }
        i += 1;
    }
    assert(sizes@.take(i as int) =~= sizes@);
    Some(total)
}

proof fn lemma_sum_grows(s: Seq<Option<usize>>, more: nat, n: int)
    requires
        0 <= n <= s.len(),
    ensures
        sum_of(s, more) matches Some(all) ==> sum_of(s.take(n), more) matches Some(part) && part
            <= all,
    decreases s.len(),
{
    if n < s.len() {
        assert(s.drop_last().take(n) =~= s.take(n));
        lemma_sum_grows(s.drop_last(), more, n);
    } else {
        assert(s.take(n) =~= s);
    }
}

/// Tests whether a response fits, with no name shortened.
fn sizes_fit(sizes: &QuerySizes, answers: &Vec<(usize, IpAddr)>) -> (r: bool)
    ensures
        r == sizes@.fits(answers@),
{
    let ghost s = sizes@;
    let questions: usize = match add_sizes(12, &sizes.names, 4) {
        Some(n) => n,
        None => {
            return false;
        },
    };
    let fixed: usize = match add_sizes(questions, &sizes.behind, 0) {
        Some(n) => n,
        None => {
            return false;
        },
    };
    assert(sum_of(s.names, 4) == Some((questions - 12) as nat));
    assert(sum_of(s.behind, 0) == Some((fixed - questions) as nat));
    assert(s.fixed() == Some(fixed as nat));
    let mut total: usize = fixed;
    let mut i: usize = 0;
    assert(answers@.take(0) =~= Seq::empty());
    while i < answers.len()
        invariant
            i <= answers@.len(),
            s == sizes@,
            s.fixed() == Some(fixed as nat),
            fixed <= total <= MAX_MESSAGE,
            total == fixed + s.answers_size(answers@.take(i as int)),
        decreases answers@.len() - i,
    {
        assert(answers@.take(i + 1).drop_last() =~= answers@.take(i as int));
        let (q, ip) = answers[i];
        let name: usize = if q < sizes.names.len() {
            match sizes.names[q] {
                Some(n) => n,
                None => 0,
            }
        } else {
            0
        };
        let rest: usize = match ip {
            IpAddr::V4(_) => 14,
            IpAddr::V6(_) => 26,
        };
        if name > MAX_MESSAGE || total + name + rest > MAX_MESSAGE {
            proof {
                lemma_answers_grow(s, answers@, i + 1);
            }
            return false;
        }
        total = total + name + rest;
        i += 1;
    }
    assert(answers@.take(i as int) =~= answers@);
    true
}

proof fn lemma_answers_grow(s: QuerySizesView, answers: Seq<(usize, IpAddr)>, n: int)
    requires
        0 <= n <= answers.len(),
    ensures
        s.answers_size(answers.take(n)) <= s.answers_size(answers),
    decreases answers.len(),
{
    if n < answers.len() {
        assert(answers.drop_last().take(n) =~= answers.take(n));
        lemma_answers_grow(s, answers.drop_last(), n);
    } else {
        assert(answers.take(n) =~= answers);
    }
}

// ---- Laws ----
/// Where its extension record has no more than one option, a response has only one spelling; in any
/// case all its spellings begin with the same bytes.
pub proof fn responses_are_alike(m: AnsweredView, a: Seq<u8>, b: Seq<u8>)
    requires
        m.spelt_by(a),
        m.spelt_by(b),
    ensures
        m.front.is_prefix_of(a),
        m.front.is_prefix_of(b),
        m.options.len() <= 1 ==> a == b,
{
    let x = choose|order: Seq<Seq<u8>>| #[trigger] m.in_order(a, order);
    let y = choose|order: Seq<Seq<u8>>| #[trigger] m.in_order(b, order);
    x.to_multiset_ensures();
    y.to_multiset_ensures();
    if m.options.len() <= 1 {
        if x.len() == 1 {
            assert(x.to_multiset().count(x[0]) > 0);
            assert(y.to_multiset().count(x[0]) > 0);
            assert(y.contains(x[0]));
        }
        assert(x =~= y);
    }
}

proof fn lemma_fresh_unexpired<T>(ips: Seq<T>, expires_at: u64, now: u64)
    ensures
        now < expires_at ==> unexpired(fresh(ips, expires_at), now) == fresh(ips, expires_at),
        now >= expires_at ==> unexpired(fresh(ips, expires_at), now).len() == 0,
    decreases ips.len(),
{
    let s = fresh(ips, expires_at);
    if ips.len() > 0 {
        lemma_fresh_unexpired(ips.drop_last(), expires_at, now);
        assert(s.drop_last() =~= fresh(ips.drop_last(), expires_at));
        assert(s =~= s.drop_last().push(s.last()));
    } else {
        assert(s =~= Seq::<CacheEntry<T>>::empty());
    }
}

/// What a name was last given is found again until it expires, and nothing after that, nor where it
/// was given no address; other names are not touched.
pub proof fn found_until_expired<T>(
    m: Map<Seq<char>, Seq<CacheEntry<T>>>,
    domain: Seq<char>,
    ips: Seq<T>,
    expires_at: u64,
    other: Seq<char>,
    now: u64,
)
    requires
        other != domain,
    ensures
        looked_up(m.insert(domain, fresh(ips, expires_at)), domain, now) == (if ips.len() > 0 && now
            < expires_at {
            Some(ips)
        } else {
            None
        }),
        looked_up(m.insert(domain, fresh(ips, expires_at)), other, now) == looked_up(m, other, now),
{
    lemma_fresh_unexpired(ips, expires_at, now);
    assert(values(fresh(ips, expires_at)) =~= ips);
}

/// Only the latest update of a name counts: what it was given before, at whatever time, is not found
/// any more.
pub proof fn latest_update_counts<T>(
    m: Map<Seq<char>, Seq<CacheEntry<T>>>,
    domain: Seq<char>,
    earlier: Seq<T>,
    earlier_expires_at: u64,
    ips: Seq<T>,
    updated: u64,
    ttl: u32,
    now: u64,
)
    requires
        updated + ttl <= u64::MAX,
    ensures
        ({
            let before = m.insert(domain, fresh(earlier, earlier_expires_at));
            let after = before.insert(domain, fresh(ips, (updated + ttl) as u64));
            looked_up(after, domain, now) == if ips.len() > 0 && now < updated + ttl {
                Some(ips)
            } else {
                None
            }
        }),
{
    let before = m.insert(domain, fresh(earlier, earlier_expires_at));
    let other = domain.push('.');
    assert(other.len() != domain.len());
    found_until_expired(before, domain, ips, (updated + ttl) as u64, other, now);
}

proof fn lemma_unexpired_twice<T>(s: Seq<CacheEntry<T>>, before: u64, now: u64)
    requires
        before <= now,
    ensures
        unexpired(unexpired(s, before), now) == unexpired(s, now),
    decreases s.len(),
{
    if s.len() > 0 {
        lemma_unexpired_twice(s.drop_last(), before, now);
        let u = unexpired(s.drop_last(), before);
        assert(u.push(s.last()).drop_last() =~= u);
    }
}

proof fn lemma_pruned_entry<T>(
    s: Seq<(Seq<char>, Seq<CacheEntry<T>>)>,
    domain: Seq<char>,
    entries: Seq<CacheEntry<T>>,
    before: u64,
)
    requires
        forall|i: int| 0 <= i < s.len() && (#[trigger] s[i]).0 == domain ==> s[i].1 == entries,
    ensures
        pruned(s, before).contains_key(domain) <==> unexpired(entries, before).len() > 0 && exists|
            i: int,
        | 0 <= i < s.len() && (#[trigger] s[i]).0 == domain,
        pruned(s, before).contains_key(domain) ==> pruned(s, before)[domain] == unexpired(
            entries,
            before,
        ),
    decreases s.len(),
{
    if s.len() > 0 {
        let rest = s.drop_last();
        assert forall|i: int| 0 <= i < rest.len() && (#[trigger] rest[i]).0 == domain implies rest[i].1
            == entries by {
            assert(rest[i] == s[i]);
        }
        lemma_pruned_entry(rest, domain, entries, before);
        if s.last().0 == domain {
            assert(s[s.len() - 1].0 == domain);
        }
        if exists|i: int| 0 <= i < rest.len() && (#[trigger] rest[i]).0 == domain {
            let i = choose|i: int| 0 <= i < rest.len() && (#[trigger] rest[i]).0 == domain;
            assert(s[i].0 == domain);
        }
        if s.last().0 != domain && exists|i: int|
            0 <= i < s.len() && (#[trigger] s[i]).0 == domain {
            let i = choose|i: int| 0 <= i < s.len() && (#[trigger] s[i]).0 == domain;
            assert(rest[i].0 == domain);
        }
    }
}

/// Dropping what is no longer good does not change what is found from then on: a cache that is
/// built from the listing of another answers every name as the other would.
pub proof fn pruning_is_not_seen<T>(
    s: Seq<(Seq<char>, Seq<CacheEntry<T>>)>,
    m: Map<Seq<char>, Seq<CacheEntry<T>>>,
    domain: Seq<char>,
    before: u64,
    now: u64,
)
    requires
        before <= now,
        forall|i: int|
            0 <= i < s.len() ==> m.contains_key((#[trigger] s[i]).0) && m[s[i].0] == s[i].1,
        forall|d: Seq<char>| #[trigger]
            m.contains_key(d) ==> exists|i: int| 0 <= i < s.len() && (#[trigger] s[i]).0 == d,
    ensures
        looked_up(pruned(s, before), domain, now) == looked_up(m, domain, now),
{
    let entries = m[domain];
    lemma_pruned_entry(s, domain, entries, before);
    lemma_unexpired_twice(entries, before, now);
}

/// An address that was just noted stands in front of the list: under its first name.
pub proof fn noted_in_front(s: Seq<(u128, Seq<char>)>, ip: u128, name: Seq<char>)
    requires
        lru_ok(s, CACHE_CAPACITY as nat),
    ensures
        seen(s, ip, name).len() > 0,
        seen(s, ip, name)[0].0 == ip,
        !has_key(s, ip) ==> seen(s, ip, name)[0].1 == name,
        has_key(s, ip) ==> seen(s, ip, name)[0].1 == s[key_pos(s, ip)].1,
        lru_ok(seen(s, ip, name), CACHE_CAPACITY as nat),
{
    lemma_lru_steps(s, CACHE_CAPACITY as nat, ip, name);
}

// ---- Laws: calls of the server ----
/// What a name was given by an update is what a later lookup finds, until the time is up, and nothing
/// after that; the other names are found as before, and so are all IPv6 addresses.
pub proof fn ipv4_updates_are_found(
    s: &mut DnsServer,
    domain: String,
    ips: &[Ipv4Addr],
    ttl: u32,
    now: u64,
    name: &String,
    later: u64,
    before: Option<Vec<Ipv4Addr>>,
    r: Option<Vec<Ipv4Addr>>,
    v6_before: Option<Vec<Ipv6Addr>>,
    v6: Option<Vec<Ipv6Addr>>,
)
    requires
        now + ttl <= u64::MAX,
        call_ensures(DnsServer::lookup_ipv4_cache, (&*old(s), name, later), before),
        call_ensures(DnsServer::lookup_ipv6_cache, (&*old(s), name, later), v6_before),
        call_ensures(DnsServer::update_ipv4_cache, (s, domain, ips, ttl, now), ()),
        call_ensures(DnsServer::lookup_ipv4_cache, (&*final(s), name, later), r),
        call_ensures(DnsServer::lookup_ipv6_cache, (&*final(s), name, later), v6),
    ensures
        name@ == domain@ && ips@.len() > 0 && later < now + ttl ==> (r matches Some(v) && v@ == ips@),
        name@ == domain@ && (ips@.len() == 0 || later >= now + ttl) ==> r is None,
        name@ != domain@ ==> (r is Some <==> before is Some) && (r matches Some(v) ==> v@
            == before->0@),
        (v6 is Some <==> v6_before is Some) && (v6 matches Some(v) ==> v@ == v6_before->0@),
{
    let other = if name@ == domain@ {
        domain@.push('.')
    } else {
        name@
    };
    assert(domain@.push('.').len() != domain@.len());
    found_until_expired(
        old(s).forward_v4.map(),
        domain@,
        ips@,
        (now + ttl) as u64,
        other,
        later,
    );
}

/// The same of IPv6.
pub proof fn ipv6_updates_are_found(
    s: &mut DnsServer,
    domain: String,
    ips: &[Ipv6Addr],
    ttl: u32,
    now: u64,
    name: &String,
    later: u64,
    before: Option<Vec<Ipv6Addr>>,
    r: Option<Vec<Ipv6Addr>>,
    v4_before: Option<Vec<Ipv4Addr>>,
    v4: Option<Vec<Ipv4Addr>>,
)
    requires
        now + ttl <= u64::MAX,
        call_ensures(DnsServer::lookup_ipv6_cache, (&*old(s), name, later), before),
        call_ensures(DnsServer::lookup_ipv4_cache, (&*old(s), name, later), v4_before),
        call_ensures(DnsServer::update_ipv6_cache, (s, domain, ips, ttl, now), ()),
        call_ensures(DnsServer::lookup_ipv6_cache, (&*final(s), name, later), r),
        call_ensures(DnsServer::lookup_ipv4_cache, (&*final(s), name, later), v4),
    ensures
        name@ == domain@ && ips@.len() > 0 && later < now + ttl ==> (r matches Some(v) && v@ == ips@),
        name@ == domain@ && (ips@.len() == 0 || later >= now + ttl) ==> r is None,
        name@ != domain@ ==> (r is Some <==> before is Some) && (r matches Some(v) ==> v@
            == before->0@),
        (v4 is Some <==> v4_before is Some) && (v4 matches Some(v) ==> v@ == v4_before->0@),
{
    let other = if name@ == domain@ {
        domain@.push('.')
    } else {
        name@
    };
    assert(domain@.push('.').len() != domain@.len());
    found_until_expired(
        old(s).forward_v6.map(),
        domain@,
        ips@,
        (now + ttl) as u64,
        other,
        later,
    );
}

/// A question for IPv4 addresses that were found in a lookup is answered with just those, one after
/// the other, for this question; one for addresses that were not found has to be resolved first. A
/// question for anything else is not implemented. The questions are taken in their order, each once.
pub proof fn ipv4_questions_are_answered(
    s: &DnsServer,
    ex: &mut DnsExchange,
    now: u64,
    r: DnsStep,
    name: &String,
    found: Option<Vec<Ipv4Addr>>,
)
    requires
        ex.wf(),
        ex.next < ex.queries@.len(),
        ex.queries@[ex.next as int].1 == 1,
        ex.queries@[ex.next as int].0@ == name@,
        call_ensures(DnsServer::lookup_ipv4_cache, (s, name, now), found),
        call_ensures(DnsServer::on_query, (s, ex, now), r),
    ensures
        final(ex).queries == old(ex).queries,
        final(ex).response_code == old(ex).response_code,
        match found {
            Some(ips) => {
                &&& r is Again
                &&& final(ex).next == old(ex).next + 1
                &&& final(ex).answers@.len() == old(ex).answers@.len() + ips@.len()
                &&& final(ex).answers@.take(old(ex).answers@.len() as int) == old(ex).answers@
                &&& forall|i: int|
                    0 <= i < ips@.len() ==> final(ex).answers@[old(ex).answers@.len() + i] == (
                        old(ex).next,
                        IpAddr::V4(#[trigger] ips@[i]),
                    )
            },
            None => (r matches DnsStep::ResolveV4(n) && n@ == name@) && *final(ex) == *old(ex),
        },
{
    if let Some(ips) = found {
        assert(final(ex).answers@.take(old(ex).answers@.len() as int) =~= old(ex).answers@);
    }
}

/// The same of IPv6.
pub proof fn ipv6_questions_are_answered(
    s: &DnsServer,
    ex: &mut DnsExchange,
    now: u64,
    r: DnsStep,
    name: &String,
    found: Option<Vec<Ipv6Addr>>,
)
    requires
        ex.wf(),
        ex.next < ex.queries@.len(),
        ex.queries@[ex.next as int].1 == 28,
        ex.queries@[ex.next as int].0@ == name@,
        call_ensures(DnsServer::lookup_ipv6_cache, (s, name, now), found),
        call_ensures(DnsServer::on_query, (s, ex, now), r),
    ensures
        final(ex).queries == old(ex).queries,
        final(ex).response_code == old(ex).response_code,
        match found {
            Some(ips) => {
                &&& r is Again
                &&& final(ex).next == old(ex).next + 1
                &&& final(ex).answers@.len() == old(ex).answers@.len() + ips@.len()
                &&& final(ex).answers@.take(old(ex).answers@.len() as int) == old(ex).answers@
                &&& forall|i: int|
                    0 <= i < ips@.len() ==> final(ex).answers@[old(ex).answers@.len() + i] == (
                        old(ex).next,
                        IpAddr::V6(#[trigger] ips@[i]),
                    )
            },
            None => (r matches DnsStep::ResolveV6(n) && n@ == name@) && *final(ex) == *old(ex),
        },
{
    if let Some(ips) = found {
        assert(final(ex).answers@.take(old(ex).answers@.len() as int) =~= old(ex).answers@);
    }
}

/// A message is finished exactly when all its questions are done, and a question for anything but
/// addresses leaves the response code "not implemented" and no answer.
pub proof fn all_questions_are_taken(s: &DnsServer, ex: &mut DnsExchange, now: u64, r: DnsStep)
    requires
        ex.wf(),
        call_ensures(DnsServer::on_query, (s, ex, now), r),
    ensures
        r is Finished <==> old(ex).next == old(ex).queries@.len(),
        r is Finished ==> *final(ex) == *old(ex),
        old(ex).next < old(ex).queries@.len() && old(ex).queries@[old(ex).next as int].1 != 1
            && old(ex).queries@[old(ex).next as int].1 != 28 ==> {
            &&& r is Again
            &&& final(ex).next == old(ex).next + 1
            &&& final(ex).response_code == 4
            &&& final(ex).answers@ == old(ex).answers@
        },
{
    assert(old(ex).answers@ + Seq::<(usize, IpAddr)>::empty() =~= old(ex).answers@);
}

/// What was resolved for a question is answered to it, and to every later question for the same name
/// until the time is up. A name that could not be resolved is answered with "no such name", and
/// nothing is remembered.
pub proof fn resolved_ipv4_is_answered(
    s: &mut DnsServer,
    ex: &mut DnsExchange,
    resolved: Option<Vec<Ipv4Addr>>,
    now: u64,
    name: &String,
    later: u64,
    before: Option<Vec<Ipv4Addr>>,
    found: Option<Vec<Ipv4Addr>>,
)
    requires
        ex.next < ex.queries@.len(),
        now + s.ttl <= u64::MAX,
        call_ensures(DnsServer::lookup_ipv4_cache, (&*old(s), name, later), before),
        call_ensures(DnsServer::on_resolved_v4, (s, ex, resolved, now), ()),
        call_ensures(DnsServer::lookup_ipv4_cache, (&*final(s), name, later), found),
    ensures
        final(ex).next == old(ex).next + 1,
        final(ex).queries == old(ex).queries,
        match resolved {
            Some(ips) => {
                &&& final(ex).response_code == old(ex).response_code
                &&& final(ex).answers@.len() == old(ex).answers@.len() + ips@.len()
                &&& forall|i: int|
                    0 <= i < ips@.len() ==> final(ex).answers@[old(ex).answers@.len() + i] == (
                        old(ex).next,
                        IpAddr::V4(#[trigger] ips@[i]),
                    )
                &&& old(ex).queries@[old(ex).next as int].0@ == name@ && ips@.len() > 0 && later
                    < now + old(s).ttl ==> (found matches Some(v) && v@ == ips@)
                &&& old(ex).queries@[old(ex).next as int].0@ == name@ && (ips@.len() == 0 || later
                    >= now + old(s).ttl) ==> found is None
            },
            None => {
                &&& final(ex).response_code == 3
                &&& final(ex).answers@ == old(ex).answers@
                &&& final(ex).notify == old(ex).notify
                &&& (found is Some <==> before is Some) && (found matches Some(v) ==> v@
                    == before->0@)
            },
        },
{
    assert(old(ex).answers@ + Seq::<(usize, IpAddr)>::empty() =~= old(ex).answers@);
    if let Some(ips) = resolved {
        let other = name@.push('.');
        assert(other.len() != name@.len());
        found_until_expired(
            old(s).forward_v4.map(),
            name@,
            ips@,
            (now + old(s).ttl) as u64,
            other,
            later,
        );
    }
}

/// The same of IPv6.
pub proof fn resolved_ipv6_is_answered(
    s: &mut DnsServer,
    ex: &mut DnsExchange,
    resolved: Option<Vec<Ipv6Addr>>,
    now: u64,
    name: &String,
    later: u64,
    before: Option<Vec<Ipv6Addr>>,
    found: Option<Vec<Ipv6Addr>>,
)
    requires
        ex.next < ex.queries@.len(),
        now + s.ttl <= u64::MAX,
        call_ensures(DnsServer::lookup_ipv6_cache, (&*old(s), name, later), before),
        call_ensures(DnsServer::on_resolved_v6, (s, ex, resolved, now), ()),
        call_ensures(DnsServer::lookup_ipv6_cache, (&*final(s), name, later), found),
    ensures
        final(ex).next == old(ex).next + 1,
        final(ex).queries == old(ex).queries,
        match resolved {
            Some(ips) => {
                &&& final(ex).response_code == old(ex).response_code
                &&& final(ex).answers@.len() == old(ex).answers@.len() + ips@.len()
                &&& forall|i: int|
                    0 <= i < ips@.len() ==> final(ex).answers@[old(ex).answers@.len() + i] == (
                        old(ex).next,
                        IpAddr::V6(#[trigger] ips@[i]),
                    )
                &&& old(ex).queries@[old(ex).next as int].0@ == name@ && ips@.len() > 0 && later
                    < now + old(s).ttl ==> (found matches Some(v) && v@ == ips@)
                &&& old(ex).queries@[old(ex).next as int].0@ == name@ && (ips@.len() == 0 || later
                    >= now + old(s).ttl) ==> found is None
            },
            None => {
                &&& final(ex).response_code == 3
                &&& final(ex).answers@ == old(ex).answers@
                &&& final(ex).notify == old(ex).notify
                &&& (found is Some <==> before is Some) && (found matches Some(v) ==> v@
                    == before->0@)
            },
        },
{
    assert(old(ex).answers@ + Seq::<(usize, IpAddr)>::empty() =~= old(ex).answers@);
    if let Some(ips) = resolved {
        let other = name@.push('.');
        assert(other.len() != name@.len());
        found_until_expired(
            old(s).forward_v6.map(),
            name@,
            ips@,
            (now + old(s).ttl) as u64,
            other,
            later,
        );
    }
}

/// A lookup gives exactly the addresses that are good after `now`, in their order.
pub proof fn good_addresses_are_found<T>(
    m: Map<Seq<char>, Seq<CacheEntry<T>>>,
    domain: Seq<char>,
    now: u64,
)
    ensures
        looked_up(m, domain, now) is Some <==> m.contains_key(domain) && exists|i: int|
            0 <= i < m[domain].len() && (#[trigger] m[domain][i]).expires_at > now,
        looked_up(m, domain, now) matches Some(v) ==> v.len() <= m[domain].len() && (forall|i: int|
            0 <= i < m[domain].len() && (#[trigger] m[domain][i]).expires_at > now ==> v.contains(
                m[domain][i].value,
            )) && forall|k: int|
            0 <= k < v.len() ==> exists|i: int|
                0 <= i < m[domain].len() && m[domain][i].expires_at > now
                    && #[trigger] m[domain][i].value == #[trigger] v[k],
{
    let s = m[domain];
    lemma_unexpired_is(s, now);
    let u = unexpired(s, now);
    let v = values(u);
    if u.len() > 0 {
        assert(u.contains(u[0]));
        let i = choose|i: int| 0 <= i < s.len() && s[i] == u[0] && s[i].expires_at > now;
        assert(s[i].expires_at > now);
    }
    assert forall|i: int| 0 <= i < s.len() && (#[trigger] s[i]).expires_at > now implies v.contains(
        s[i].value,
    ) by {
        let k = choose|k: int| 0 <= k < u.len() && u[k] == s[i];
        assert(v[k] == s[i].value);
    }
    assert forall|k: int| 0 <= k < v.len() implies exists|i: int|
        0 <= i < s.len() && s[i].expires_at > now && #[trigger] s[i].value == #[trigger] v[k] by {
        let i = choose|i: int| 0 <= i < s.len() && s[i] == u[k] && s[i].expires_at > now;
        assert(s[i].value == v[k]);
    }
}

proof fn lemma_unexpired_is<T>(s: Seq<CacheEntry<T>>, now: u64)
    ensures
        unexpired(s, now).len() <= s.len(),
        forall|k: int|
            0 <= k < unexpired(s, now).len() ==> exists|i: int|
                0 <= i < s.len() && s[i] == #[trigger] unexpired(s, now)[k] && s[i].expires_at
                    > now,
        forall|i: int|
            0 <= i < s.len() && (#[trigger] s[i]).expires_at > now ==> exists|k: int|
                0 <= k < unexpired(s, now).len() && unexpired(s, now)[k] == s[i],
    decreases s.len(),
{
    if s.len() > 0 {
        let rest = s.drop_last();
        let u = unexpired(s, now);
        let w = unexpired(rest, now);
        lemma_unexpired_is(rest, now);
        assert forall|k: int| 0 <= k < u.len() implies exists|i: int|
            0 <= i < s.len() && s[i] == #[trigger] u[k] && s[i].expires_at > now by {
            if k < w.len() {
                assert(u[k] == w[k]);
                let i = choose|i: int| 0 <= i < rest.len() && rest[i] == w[k] && rest[i].expires_at
                    > now;
                assert(s[i] == u[k]);
            } else {
                assert(s[s.len() - 1] == u[k]);
            }
        }
        assert forall|i: int| 0 <= i < s.len() && (#[trigger] s[i]).expires_at > now implies exists|
            k: int,
        | 0 <= k < u.len() && u[k] == s[i] by {
            if i < rest.len() {
                assert(rest[i] == s[i]);
                let k = choose|k: int| 0 <= k < w.len() && w[k] == rest[i];
                assert(u[k] == s[i]);
            } else {
                assert(u[u.len() - 1] == s[i]);
            }
        }
    }
}

/// An address that is seen a second time under the name that it has is no news; one that is new, or
/// has another name, is.
pub proof fn news_only_once(s: Seq<(u128, Seq<char>)>, ip: u128, name: Seq<char>)
    requires
        lru_ok(s, CACHE_CAPACITY as nat),
    ensures
        !has_key(s, ip) ==> is_news(s, ip, name) && !is_news(seen(s, ip, name), ip, name),
        has_key(s, ip) ==> (is_news(s, ip, name) <==> s[key_pos(s, ip)].1 != name) && (is_news(
            seen(s, ip, name),
            ip,
            name,
        ) <==> is_news(s, ip, name)),
{
    noted_in_front(s, ip, name);
    let t = seen(s, ip, name);
    crate::tables::lemma_key_pos_is(t, ip, 0);
}

/// A server begins with what was saved: it finds the names of a listing, each once, as they were saved,
/// as far as they are still good.
pub proof fn saved_names_are_found(
    ttl: u32,
    saved: SavedCaches,
    now: u64,
    r: DnsServer,
    m: Map<Seq<char>, Seq<CacheEntry<Ipv4Addr>>>,
    name: &String,
    later: u64,
    found: Option<Vec<Ipv4Addr>>,
)
    requires
        now <= later,
        saved.forward_v4 matches Some(v) && (forall|i: int|
            0 <= i < listing(v@).len() ==> m.contains_key((#[trigger] listing(v@)[i]).0)
                && m[listing(v@)[i].0] == listing(v@)[i].1) && forall|d: Seq<char>| #[trigger]
            m.contains_key(d) ==> exists|i: int|
                0 <= i < listing(v@).len() && (#[trigger] listing(v@)[i]).0 == d,
        call_ensures(DnsServer::new, (ttl, saved, now), r),
        call_ensures(DnsServer::lookup_ipv4_cache, (&r, name, later), found),
    ensures
        found is Some <==> looked_up(m, name@, later) is Some,
        found matches Some(v) ==> looked_up(m, name@, later) == Some(v@),
        r.ttl == ttl,
{
    pruning_is_not_seen(listing(saved.forward_v4->0@), m, name@, now, later);
}

/// A response is sent for a message exactly where there is room for it and it can be written, and it
/// bears the identifier of the query and the response code.
pub proof fn replies_are_responses(
    s: &DnsServer,
    buf: &[u8],
    ex: &DnsExchange,
    reply: DnsReply,
    response: Option<Vec<u8>>,
)
    requires
        call_ensures(DnsServer::reply, (s, buf, ex), reply),
        has_room(buf@, ex.answers@) ==> call_ensures(DnsServer::respond, (s, buf, ex), response),
    ensures
        has_room(buf@, ex.answers@) ==> (reply is Send <==> response is Some),
        reply matches DnsReply::Send(b) ==> b@.len() >= 12 && b@[0] == buf@[0] && b@[1] == buf@[1]
            && b@[2] >= 0x80 && b@[3] % 16 == ex.response_code % 16,
        has_room(buf@, ex.answers@) ==> (response matches Some(b) ==> b@[0] == buf@[0] && b@[1]
            == buf@[1] && b@[2] >= 0x80 && b@[3] % 16 == ex.response_code % 16),
        reply is TooLong ==> !has_room(buf@, ex.answers@),
{
    if let DnsReply::Send(b) = reply {
        assert(b@.subrange(0, 2)[0] == b@[0] && b@.subrange(0, 2)[1] == b@[1]);
        assert(buf@.subrange(0, 2)[0] == buf@[0] && buf@.subrange(0, 2)[1] == buf@[1]);
    }
    if has_room(buf@, ex.answers@) {
        if let Some(b) = response {
            assert(b@.subrange(0, 2)[0] == b@[0] && b@.subrange(0, 2)[1] == b@[1]);
            assert(buf@.subrange(0, 2)[0] == buf@[0] && buf@.subrange(0, 2)[1] == buf@[1]);
        }
    }
}

/// A server remembers the names of up to 1024 addresses of each family, and answers with the time to
/// live that it was made with.
pub proof fn servers_remember_so_many(ttl: u32, saved: SavedCaches, now: u64, r: DnsServer)
    requires
        call_ensures(DnsServer::new, (ttl, saved, now), r),
    ensures
        r.ttl == ttl,
        addr_cap(r.reverse_v4) == 1024 && addr_cap(r.reverse_v6) == 1024,
        addr_entries(r.reverse_v4).len() <= 1024 && addr_entries(r.reverse_v6).len() <= 1024,
{
}

/// A response has no room exactly where something is written behind its answers and the whole takes more
/// than 65535 bytes: the header has 12, a question 4 behind its name, an IPv4 answer 14 and an IPv6 answer
/// 26 behind its own.
pub proof fn long_responses_have_no_room(
    s: &DnsServer,
    buf: &[u8],
    ex: &DnsExchange,
    reply: DnsReply,
    name: usize,
    behind: Seq<Option<usize>>,
    record: usize,
    ip: IpAddr,
)
    requires
        call_ensures(DnsServer::reply, (s, buf, ex), reply),
        crate::deps::dns_proto::query_sizes(buf@) matches Some(sizes) && sizes.names == seq![Some(name)] && sizes.behind
            == behind,
        behind.len() == 0 || behind == seq![Some(record)],
        ex.answers@ == seq![(0usize, ip)],
    ensures
        behind.len() == 0 ==> !(reply is TooLong),
        behind.len() == 1 ==> (reply is TooLong <==> 12 + (name + 4) + record + (name + (if ip is V4 {
            14int
        } else {
            26int
        })) > 65535),
{
    let sizes = crate::deps::dns_proto::query_sizes(buf@)->0;
    lemma_one_size(name, 4);
    lemma_one_size(record, 0);
    if behind.len() == 1 {
        reveal_with_fuel(crate::deps::dns_proto::QuerySizesView::answers_size, 2);
        assert(ex.answers@.drop_last() =~= Seq::<(usize, IpAddr)>::empty());
    }
}

proof fn lemma_one_size(n: usize, more: nat)
    ensures
        sum_of(seq![Some(n)], more) == Some((n + more) as nat),
{
    reveal_with_fuel(sum_of, 2);
    assert(seq![Some(n)].drop_last() =~= Seq::<Option<usize>>::empty());
}

} // verus!
