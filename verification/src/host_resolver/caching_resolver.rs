//! Resolving names from a cache first.
use vstd::prelude::*;

use crate::dns_server::datagram::fresh;
use crate::dns_server::datagram::looked_up;
use crate::dns_server::datagram::DnsServer;
use crate::net::Ipv4Addr;
use crate::net::Ipv6Addr;

verus! {

/// For how many seconds an answer of the fallback is remembered.
pub const FALLBACK_TTL: u32 = 3600;

/// Answers from what a server remembers, and asks the fallback for the rest.
pub struct CachingResolver<F> {
    pub cache: DnsServer,
    pub fallback: F,
}

impl<F> CachingResolver<F> {
    pub fn new(cache: DnsServer, fallback: F) -> (r: Self)
        ensures
            r.cache == cache,
            r.fallback == fallback,
    {
        CachingResolver { cache, fallback }
    }

    /// The IPv4 addresses of a domain, if they are remembered; the fallback is asked otherwise.
    pub fn resolve_ipv4(&self, domain: &String, now: u64) -> (r: Result<Vec<Ipv4Addr>, &F>)
        ensures
            match r {
                Ok(ips) => looked_up(self.cache.forward_v4.map(), domain@, now) == Some(ips@),
                Err(f) => looked_up(self.cache.forward_v4.map(), domain@, now) is None && *f
                    == self.fallback,
            },
    {
        match self.cache.lookup_ipv4_cache(domain, now) {
            Some(ips) => Ok(ips),
            None => Err(&self.fallback),
        }
    }

    /// The IPv6 addresses of a domain, if they are remembered; the fallback is asked otherwise.
    pub fn resolve_ipv6(&self, domain: &String, now: u64) -> (r: Result<Vec<Ipv6Addr>, &F>)
        ensures
            match r {
                Ok(ips) => looked_up(self.cache.forward_v6.map(), domain@, now) == Some(ips@),
                Err(f) => looked_up(self.cache.forward_v6.map(), domain@, now) is None && *f
                    == self.fallback,
            },
    {
        match self.cache.lookup_ipv6_cache(domain, now) {
            Some(ips) => Ok(ips),
            None => Err(&self.fallback),
        }
    }

    /// Remembers what the fallback answered. Says whether the cache should be written soon.
    pub fn on_ipv4(&mut self, domain: String, answer: Option<&[Ipv4Addr]>, now: u64) -> (notify:
        bool)
        requires
            old(self).cache.wf(),
            now + FALLBACK_TTL <= u64::MAX,
        ensures
            final(self).cache.wf(),
            final(self).fallback == old(self).fallback,
            notify == (answer is Some),
            match answer {
                Some(ips) => final(self).cache.forward_v4.map() == old(
                    self,
                ).cache.forward_v4.map().insert(domain@, fresh(ips@, (now + FALLBACK_TTL) as u64))
                    && final(self).cache.forward_v6 == old(self).cache.forward_v6 && final(
                    self).cache.reverse_v4 == old(self).cache.reverse_v4 && final(
                    self).cache.reverse_v6 == old(self).cache.reverse_v6,
                None => final(self).cache == old(self).cache,
            },
    {
        match answer {
            Some(ips) => {
                self.cache.update_ipv4_cache(domain, ips, FALLBACK_TTL, now);
                true
            },
            None => false,
        }
    }

    /// Remembers what the fallback answered. Says whether the cache should be written soon.
    pub fn on_ipv6(&mut self, domain: String, answer: Option<&[Ipv6Addr]>, now: u64) -> (notify:
        bool)
        requires
            old(self).cache.wf(),
            now + FALLBACK_TTL <= u64::MAX,
        ensures
            final(self).cache.wf(),
            final(self).fallback == old(self).fallback,
            notify == (answer is Some),
            match answer {
                Some(ips) => final(self).cache.forward_v6.map() == old(
                    self,
                ).cache.forward_v6.map().insert(domain@, fresh(ips@, (now + FALLBACK_TTL) as u64))
                    && final(self).cache.forward_v4 == old(self).cache.forward_v4 && final(
                    self).cache.reverse_v4 == old(self).cache.reverse_v4 && final(
                    self).cache.reverse_v6 == old(self).cache.reverse_v6,
                None => final(self).cache == old(self).cache,
            },
    {
        match answer {
            Some(ips) => {
                self.cache.update_ipv6_cache(domain, ips, FALLBACK_TTL, now);
                true
            },
            None => false,
        }
    }
}

/// What the fallback answered is answered from the cache for the next hour, and no longer.
pub proof fn answers_are_remembered<T>(
    m: Map<Seq<char>, Seq<crate::dns_server::datagram::CacheEntry<T>>>,
    domain: Seq<char>,
    ips: Seq<T>,
    now: u64,
    later: u64,
)
    requires
        ips.len() > 0,
        now + FALLBACK_TTL <= u64::MAX,
    ensures
        later < now + FALLBACK_TTL ==> looked_up(
            m.insert(domain, fresh(ips, (now + FALLBACK_TTL) as u64)),
            domain,
            later,
        ) == Some(ips),
        later >= now + FALLBACK_TTL ==> looked_up(
            m.insert(domain, fresh(ips, (now + FALLBACK_TTL) as u64)),
            domain,
            later,
        ) is None,
{
    crate::dns_server::datagram::found_until_expired(
        m,
        domain,
        ips,
        (now + FALLBACK_TTL) as u64,
        domain.push('.'),
        later,
    );
    assert(domain.push('.').len() != domain.len());
}

// ---- Laws: calls ----
/// What the fallback answered is what the resolver answers by itself from then on, for an hour; after
/// that, and for a name that the fallback did not know, the fallback is asked again.
pub proof fn fallback_is_asked_once_an_hour<F>(
    c: &mut CachingResolver<F>,
    domain: String,
    answer: Option<&[Ipv4Addr]>,
    now: u64,
    notify: bool,
    name: &String,
    later: u64,
    before: Result<Vec<Ipv4Addr>, &F>,
    r: Result<Vec<Ipv4Addr>, &F>,
)
    requires
        c.cache.wf(),
        now + 3600 <= u64::MAX,
        name@ == domain@,
        call_ensures(CachingResolver::<F>::resolve_ipv4, (&*old(c), name, later), before),
        call_ensures(CachingResolver::<F>::on_ipv4, (c, domain, answer, now), notify),
        call_ensures(CachingResolver::<F>::resolve_ipv4, (&*final(c), name, later), r),
    ensures
        notify == (answer is Some),
        match answer {
            Some(ips) => if ips@.len() > 0 && later < now + 3600 {
                r matches Ok(v) && v@ == ips@
            } else {
                r matches Err(f) && *f == old(c).fallback
            },
            None => (r is Ok <==> before is Ok) && (r matches Ok(v) ==> v@ == before->Ok_0@),
        },
{
    if let Some(ips) = answer {
        assert(domain@.push('.').len() != domain@.len());
        crate::dns_server::datagram::found_until_expired(
            old(c).cache.forward_v4.map(),
            domain@,
            ips@,
            (now + FALLBACK_TTL) as u64,
            domain@.push('.'),
            later,
        );
    }
}

/// The same of IPv6.
pub proof fn fallback_is_asked_once_an_hour_v6<F>(
    c: &mut CachingResolver<F>,
    domain: String,
    answer: Option<&[Ipv6Addr]>,
    now: u64,
    notify: bool,
    name: &String,
    later: u64,
    before: Result<Vec<Ipv6Addr>, &F>,
    r: Result<Vec<Ipv6Addr>, &F>,
)
    requires
        c.cache.wf(),
        now + 3600 <= u64::MAX,
        name@ == domain@,
        call_ensures(CachingResolver::<F>::resolve_ipv6, (&*old(c), name, later), before),
        call_ensures(CachingResolver::<F>::on_ipv6, (c, domain, answer, now), notify),
        call_ensures(CachingResolver::<F>::resolve_ipv6, (&*final(c), name, later), r),
    ensures
        notify == (answer is Some),
        match answer {
            Some(ips) => if ips@.len() > 0 && later < now + 3600 {
                r matches Ok(v) && v@ == ips@
            } else {
                r matches Err(f) && *f == old(c).fallback
            },
            None => (r is Ok <==> before is Ok) && (r matches Ok(v) ==> v@ == before->Ok_0@),
        },
{
    if let Some(ips) = answer {
        assert(domain@.push('.').len() != domain@.len());
        crate::dns_server::datagram::found_until_expired(
            old(c).cache.forward_v6.map(),
            domain@,
            ips@,
            (now + FALLBACK_TTL) as u64,
            domain@.push('.'),
            later,
        );
    }
}

} // verus!
