//! Resolving the domains that are reached directly, and sending everything to one proxy.
use vstd::prelude::*;

use crate::flow::dest_text;
use crate::flow::dest_text_spec;
use crate::flow::DestView;
use crate::flow::DestinationAddr;
use crate::flow::FlowContext;
use crate::flow::HostName;
use crate::flow::HostView;
use crate::net::IpAddr;
use crate::net_text::host_of_text;
use crate::net_text::read_host;
use crate::redirect::PeerProvider;
use crate::redirect::StreamRedirectOutboundFactory;
use crate::text::chars_of;
use crate::text::contains;
use crate::text::has_substring;
use crate::text::texts;

verus! {

/// Names a proxy by its host and port. The host is an address where its text spells one.
pub struct ProxyPeerProvider {
    pub host: String,
    pub port: u16,
}

impl ProxyPeerProvider {
    pub open spec fn peer(&self) -> DestView {
        DestView { host: host_of_text(self.host@), port: self.port }
    }
}

impl PeerProvider for ProxyPeerProvider {
    fn get_peer(&self) -> (r: DestinationAddr)
        ensures
            r@ == self.peer(),
    {
        DestinationAddr { host: read_host(self.host.clone()), port: self.port }
    }
}

/// Resolves the domains of a list before it sends their flows on.
pub struct SmartResolver<N> {
    pub inner: StreamRedirectOutboundFactory<ProxyPeerProvider, N>,
    pub direct_domains: Vec<String>,
}

/// Whether one of the texts occurs in `domain`.
pub open spec fn mentions(domain: Seq<char>, list: Seq<Seq<char>>) -> bool {
    exists|i: int| 0 <= i < list.len() && contains(domain, #[trigger] list[i])
}

/// What a flow to a domain of the list is resolved by: its destination in text.
pub open spec fn lookup_spec(dest: DestView, list: Seq<Seq<char>>) -> Option<Seq<char>> {
    match dest.host {
        HostView::DomainName(domain) if mentions(domain, list) => Some(
            dest_text_spec(dest),
        ),
        _ => None,
    }
}

impl<N> SmartResolver<N> {
    pub fn new(
        redirect: StreamRedirectOutboundFactory<ProxyPeerProvider, N>,
        direct_domains: Vec<String>,
    ) -> (r: Self)
        ensures
            r.inner == redirect,
            r.direct_domains == direct_domains,
    {
        SmartResolver { inner: redirect, direct_domains }
    }

    /// Whether a domain is resolved: a text of the list occurs in it.
    pub fn should_resolve(&self, domain: &str) -> (r: bool)
        ensures
            r == mentions(domain@, texts(self.direct_domains@)),
    {
        let chars: Vec<char> = chars_of(domain);
        let mut i: usize = 0;
        while i < self.direct_domains.len()
            invariant
                i <= self.direct_domains@.len(),
                chars@ == domain@,
                forall|j: int|
                    0 <= j < i ==> !contains(domain@, #[trigger] texts(self.direct_domains@)[j]),
            decreases self.direct_domains@.len() - i,
        {
            let d: Vec<char> = chars_of(self.direct_domains[i].as_str());
            if has_substring(chars.as_slice(), d.as_slice()) {
                assert(contains(domain@, texts(self.direct_domains@)[i as int]));
                return true;
            }
            i += 1;
        }
        false
    }

    /// What has to be looked up before a flow goes on; nothing where it goes on as it is.
    pub fn lookup(&self, context: &FlowContext) -> (r: Option<String>)
        ensures
            match r {
                Some(t) => lookup_spec(context.remote_peer@, texts(self.direct_domains@)) == Some(
                    t@,
                ),
                None => lookup_spec(context.remote_peer@, texts(self.direct_domains@)) is None,
            },
    {
        match &context.remote_peer.host {
            HostName::DomainName(domain) => {
                if self.should_resolve(domain.as_str()) {
                    Some(dest_text(&context.remote_peer))
                } else {
                    None
                }
            },
            HostName::Ip(_) => None,
        }
    }
}

/// Puts the first address that a lookup found in the place of the name. Where it found none, or
/// failed, the name stays.
pub fn resolved(context: FlowContext, found: Option<IpAddr>) -> (r: FlowContext)
    ensures
        r == (match found {
            Some(ip) => FlowContext {
                remote_peer: DestinationAddr {
                    host: HostName::Ip(ip),
                    port: context.remote_peer.port,
                },
                ..context
            },
            None => context,
        }),
{
    match found {
        Some(ip) => {
            let port: u16 = context.remote_peer.port;
            FlowContext { remote_peer: DestinationAddr { host: HostName::Ip(ip), port }, ..context }
        },
        None => context,
    }
}

/// A resolver in front of the proxy at `proxy_host` and `proxy_port`. Nothing is behind it yet.
pub fn create_smart_resolver<N>(
    proxy_host: String,
    proxy_port: u16,
    direct_domains: Vec<String>,
) -> (r: SmartResolver<N>)
    ensures
        r.inner.remote_peer == (ProxyPeerProvider { host: proxy_host, port: proxy_port }),
        r.inner.next is None,
        r.direct_domains == direct_domains,
{
    let provider = ProxyPeerProvider { host: proxy_host, port: proxy_port };
    let redirect = StreamRedirectOutboundFactory { remote_peer: provider, next: None };
    SmartResolver::new(redirect, direct_domains)
}

/// A domain is resolved exactly where a text of the list occurs in it, wherever that is.
pub proof fn listed_domains_are_resolved(
    s: &SmartResolver<u8>,
    domain: &str,
    r: bool,
    i: int,
    before: Seq<char>,
    after: Seq<char>,
)
    requires
        0 <= i < s.direct_domains@.len(),
        domain@ == before + s.direct_domains@[i]@ + after,
        call_ensures(SmartResolver::<u8>::should_resolve, (s, domain), r),
    ensures
        r,
{
    let list = texts(s.direct_domains@);
    assert(list[i] == s.direct_domains@[i]@);
    let p = before.len() as int;
    assert(domain@.subrange(p, p + list[i].len()) =~= list[i]);
    assert(crate::text::stands_at(domain@, p, list[i]));
    assert(contains(domain@, list[i]));
}

/// With an empty list nothing is resolved; an address never is.
pub proof fn unlisted_flows_go_on(s: &SmartResolver<u8>, context: &FlowContext, r: Option<String>)
    requires
        s.direct_domains@.len() == 0 || context.remote_peer@.host is Ip,
        call_ensures(SmartResolver::<u8>::lookup, (s, context), r),
    ensures
        r is None,
{
}

/// A flow is resolved by its destination in text exactly where its domain is.
pub proof fn flows_are_resolved_with_their_domain(
    s: &SmartResolver<u8>,
    context: &FlowContext,
    domain: &str,
    should: bool,
    r: Option<String>,
)
    requires
        context.remote_peer@.host == HostView::DomainName(domain@),
        call_ensures(SmartResolver::<u8>::should_resolve, (s, domain), should),
        call_ensures(SmartResolver::<u8>::lookup, (s, context), r),
    ensures
        r is Some <==> should,
        r matches Some(t) ==> t@ == dest_text_spec(context.remote_peer@),
{
}

/// The address that was found takes the place of the name, with the same port; where none was, nothing
/// changes.
pub proof fn found_addresses_replace_names(
    context: FlowContext,
    found: Option<IpAddr>,
    r: FlowContext,
)
    requires
        call_ensures(resolved, (context, found), r),
    ensures
        r.remote_peer.port == context.remote_peer.port,
        r.local_peer == context.local_peer,
        r.af_sensitive == context.af_sensitive,
        found matches Some(ip) ==> r.remote_peer.host == HostName::Ip(ip),
        found is None ==> r == context,
{
}

/// A resolver in front of a proxy sends flows to the proxy alone: its host is an address where the text
/// spells one, and a name otherwise.
pub proof fn proxies_are_named(
    host: String,
    port: u16,
    list: Vec<String>,
    r: SmartResolver<u8>,
    peer: DestinationAddr,
)
    requires
        call_ensures(create_smart_resolver::<u8>, (host, port, list), r),
        call_ensures(ProxyPeerProvider::get_peer, (&r.inner.remote_peer,), peer),
    ensures
        r.inner.next is None,
        r.direct_domains == list,
        peer@.port == port,
        crate::net_text::ip_of(host@) matches Some(ip) ==> peer@.host == HostView::Ip(ip),
        crate::net_text::ip_of(host@) is None ==> peer@.host == HostView::DomainName(host@),
{
}

} // verus!
