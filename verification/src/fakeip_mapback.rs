//! Back from fake addresses to names.
use vstd::prelude::*;

use crate::fakeip::FakeIp;
use crate::flow::DestView;
use crate::flow::DestinationAddr;
use crate::flow::FlowContext;
use crate::flow::HostName;
use crate::flow::HostView;
use crate::net::IpAddr;
use crate::tables::NameMap;

verus! {

/// The host with a fake address replaced by the name behind it.
pub open spec fn mapped_host(fakeip: &FakeIp, host: HostView) -> HostView {
    match host {
        HostView::Ip(ip) => match fakeip.domain_of(ip) {
            Some(domain) => HostView::DomainName(domain),
            None => host,
        },
        HostView::DomainName(_) => host,
    }
}

/// Replaces a fake address by the name behind it.
pub fn map_back_host(fakeip: &FakeIp, host: HostName) -> (r: HostName)
    ensures
        r@ == mapped_host(fakeip, host@),
{
    if let HostName::Ip(ip) = &host {
        if let Some(domain) = fakeip.lookup_domain_by_fake_ip(*ip) {
            return HostName::DomainName(domain);
        }
    }
    host
}

/// Maps the destination of each stream before `next` sees it.
pub struct FakeIpMapBackStreamHandler<F, N> {
    pub fakeip: F,
    pub next: N,
}

impl<F, N> FakeIpMapBackStreamHandler<F, N> {
    pub fn new(fakeip: F, next: N) -> (h: Self)
        ensures
            h.fakeip == fakeip,
            h.next == next,
    {
        FakeIpMapBackStreamHandler { fakeip, next }
    }
}

/// Maps the destination of each session and of its datagrams before `next` sees them.
pub struct FakeIpMapBackDatagramSessionHandler<F, N> {
    pub fakeip: F,
    pub next: N,
}

impl<F, N> FakeIpMapBackDatagramSessionHandler<F, N> {
    pub fn new(fakeip: F, next: N) -> (h: Self)
        ensures
            h.fakeip == fakeip,
            h.next == next,
    {
        FakeIpMapBackDatagramSessionHandler { fakeip, next }
    }
}

/// The flow as the next handler sees it.
pub fn map_back_context(fakeip: &FakeIp, context: FlowContext) -> (r: FlowContext)
    ensures
        r.remote_peer.host@ == mapped_host(fakeip, context.remote_peer.host@),
        r.remote_peer.port == context.remote_peer.port,
        r.local_peer == context.local_peer,
        r.af_sensitive == context.af_sensitive,
        r.application_layer_protocol == context.application_layer_protocol,
{
    let port: u16 = context.remote_peer.port;
    FlowContext {
        local_peer: context.local_peer,
        remote_peer: DestinationAddr {
            host: map_back_host(fakeip, context.remote_peer.host),
            port,
        },
        af_sensitive: context.af_sensitive,
        application_layer_protocol: context.application_layer_protocol,
    }
}

/// What is remembered after a datagram for `host` came in.
pub open spec fn remembered(fakeip: &FakeIp, m: Map<Seq<char>, IpAddr>, host: HostView) -> Map<
    Seq<char>,
    IpAddr,
> {
    match (host, mapped_host(fakeip, host)) {
        (HostView::Ip(ip), HostView::DomainName(domain)) => m.insert(domain, ip),
        _ => m,
    }
}

/// The host that a datagram for `host` goes to.
pub open spec fn answer_host(m: Map<Seq<char>, IpAddr>, host: HostView) -> HostView {
    match host {
        HostView::DomainName(domain) if m.contains_key(domain) => HostView::Ip(m[domain]),
        h => h,
    }
}

/// Remembers, for the names of one session, the addresses that they stood for.
pub struct FakeIpMapBackDatagramSession {
    pub local_forward_mapping: NameMap<IpAddr>,
}

impl FakeIpMapBackDatagramSession {
    pub open spec fn wf(&self) -> bool {
        self.local_forward_mapping.wf()
    }

    pub fn new() -> (s: Self)
        ensures
            s.wf(),
            s.local_forward_mapping@ == Map::<Seq<char>, IpAddr>::empty(),
    {
        FakeIpMapBackDatagramSession { local_forward_mapping: NameMap::new() }
    }

    /// A datagram for `dest` came in. A fake address becomes a name, and is remembered.
    pub fn on_recv(&mut self, fakeip: &FakeIp, dest: DestinationAddr) -> (r: DestinationAddr)
        requires
            old(self).wf(),
        ensures
            final(self).wf(),
            r.host@ == mapped_host(fakeip, dest.host@),
            r.port == dest.port,
            final(self).local_forward_mapping@ == remembered(
                fakeip,
                old(self).local_forward_mapping@,
                dest.host@,
            ),
    {
        let port: u16 = dest.port;
        if let HostName::Ip(ip) = &dest.host {
            if let Some(domain) = fakeip.lookup_domain_by_fake_ip(*ip) {
                self.local_forward_mapping.insert(domain.clone(), *ip);
                return DestinationAddr { host: HostName::DomainName(domain), port };
            }
        }
        dest
    }

    /// Where a datagram for `remote_peer` goes: a name that is remembered becomes its address.
    pub fn send_to(&self, remote_peer: DestinationAddr) -> (r: DestinationAddr)
        ensures
            r@ == (DestView {
                host: answer_host(self.local_forward_mapping@, remote_peer.host@),
                port: remote_peer.port,
            }),
    {
        let port: u16 = remote_peer.port;
        if let HostName::DomainName(domain) = &remote_peer.host {
            if let Some(ip) = self.local_forward_mapping.get(domain) {
                return DestinationAddr { host: HostName::Ip(*ip), port };
            }
        }
        remote_peer
    }
}

/// What comes in for an address, and is answered under the host it was given, goes back from that
/// address.
pub proof fn answered_from_same_address(fakeip: &FakeIp, m: Map<Seq<char>, IpAddr>, ip: IpAddr)
    ensures
        answer_host(
            remembered(fakeip, m, HostView::Ip(ip)),
            mapped_host(fakeip, HostView::Ip(ip)),
        ) == HostView::Ip(ip),
{
}

// ---- Laws: calls ----
/// A flow to the fake address of a name goes on to the name, at the same port; nothing else about a
/// flow changes, and a flow to any other address, or to a name, stays as it is.
pub proof fn flows_go_back_to_their_names(
    f: &FakeIp,
    context: FlowContext,
    r: FlowContext,
    ip: IpAddr,
    name: Option<String>,
)
    requires
        context.remote_peer.host@ == HostView::Ip(ip),
        call_ensures(FakeIp::lookup_domain_by_fake_ip, (f, ip), name),
        call_ensures(map_back_context, (f, context), r),
    ensures
        match name {
            Some(n) => r.remote_peer.host@ == HostView::DomainName(n@),
            None => r.remote_peer.host@ == HostView::Ip(ip),
        },
        r.remote_peer.port == context.remote_peer.port,
        r.local_peer == context.local_peer,
        r.af_sensitive == context.af_sensitive,
{
}

/// The same of a host; a name stays a name.
pub proof fn hosts_go_back_to_their_names(
    f: &FakeIp,
    host: HostName,
    r: HostName,
    name: Option<String>,
)
    requires
        host@ matches HostView::Ip(ip) ==> call_ensures(
            FakeIp::lookup_domain_by_fake_ip,
            (f, ip),
            name,
        ),
        call_ensures(map_back_host, (f, host), r),
    ensures
        host@ is DomainName ==> r@ == host@,
        host@ is Ip ==> (match name {
            Some(n) => r@ == HostView::DomainName(n@),
            None => r@ == host@,
        }),
{
}

/// A datagram that came in for a fake address is handed on under the name behind it, and the answer
/// under that name goes back from the address. Whoever was not asked for keeps its own host, and ports
/// are kept both ways.
pub proof fn datagrams_are_answered_from_the_same_address(
    s: &mut FakeIpMapBackDatagramSession,
    f: &FakeIp,
    dest: DestinationAddr,
    r: DestinationAddr,
    answer: DestinationAddr,
    back: DestinationAddr,
    ip: IpAddr,
    name: Option<String>,
)
    requires
        s.wf(),
        dest.host@ == HostView::Ip(ip),
        call_ensures(FakeIp::lookup_domain_by_fake_ip, (f, ip), name),
        call_ensures(FakeIpMapBackDatagramSession::on_recv, (s, f, dest), r),
        answer.host@ == r.host@,
        call_ensures(FakeIpMapBackDatagramSession::send_to, (&*final(s), answer), back),
    ensures
        match name {
            Some(n) => r.host@ == HostView::DomainName(n@),
            None => r.host@ == HostView::Ip(ip),
        },
        r.port == dest.port,
        back.host@ == HostView::Ip(ip),
        back.port == answer.port,
{
}

/// An answer from a name that was never asked for keeps that name, and one from an address keeps the
/// address.
pub proof fn unknown_answers_are_kept(
    s: &FakeIpMapBackDatagramSession,
    answer: DestinationAddr,
    back: DestinationAddr,
)
    requires
        answer.host@ matches HostView::DomainName(n) ==> !s.local_forward_mapping@.contains_key(n),
        call_ensures(FakeIpMapBackDatagramSession::send_to, (s, answer), back),
    ensures
        back@ == answer@,
{
}

} // verus!
