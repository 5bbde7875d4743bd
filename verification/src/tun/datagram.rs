//! UDP through a TUN device.
use std::collections::HashMap;
use vstd::prelude::*;

use crate::flow::DestView;
use crate::flow::DestinationAddr;
use crate::flow::FlowContext;
use crate::flow::HostName;
use crate::flow::HostView;
use crate::net::IpAddr;
use crate::net::Ipv4Addr;
use crate::net::SocketAddr;

verus! {

broadcast use vstd::std_specs::hash::group_hash_axioms;

/// A datagram on its way down to a client.
#[derive(Debug)]
pub struct UdpPacket {
    pub data: Vec<u8>,
    pub src_addr: SocketAddr,
    pub dst_addr: SocketAddr,
}

/// A session with all clients behind the device.
pub struct TunDatagramSession {
    /// The client that was last seen sending to a port.
    pub port_mappings: HashMap<u16, SocketAddr>,
    pub closed: bool,
    /// The addresses of the last datagram from a client.
    pub flow_context: FlowContext,
}

/// Whether an address is a multicast address.
pub open spec fn is_multicast(ip: IpAddr) -> bool {
    match ip {
        IpAddr::V4(ip) => ip.bits / 0x1000_0000 == 14,
        IpAddr::V6(ip) => ip.bits / 0x1_0000_0000_0000_0000_0000_0000_0000_00 == 0xff,
    }
}

fn multicast(ip: IpAddr) -> (r: bool)
    ensures
        r == is_multicast(ip),
{
    match ip {
        IpAddr::V4(ip) => ip.bits / 0x1000_0000 == 14,
        IpAddr::V6(ip) => ip.bits / 0x1_0000_0000_0000_0000_0000_0000_0000_00 == 0xff,
    }
}

/// The address that all answers are said to come from: 8.8.8.8, port 53.
pub open spec fn answer_source() -> SocketAddr {
    SocketAddr { ip: IpAddr::V4(Ipv4Addr { bits: 0x08080808 }), port: 53 }
}

/// A socket address as a destination.
pub open spec fn dest_of(addr: SocketAddr) -> DestView {
    DestView { host: HostView::Ip(addr.ip), port: addr.port }
}

impl TunDatagramSession {
    pub fn new(flow_context: FlowContext) -> (r: Self)
        ensures
            r.port_mappings@ == Map::<u16, SocketAddr>::empty(),
            !r.closed,
            r.flow_context == flow_context,
    {
        TunDatagramSession { port_mappings: HashMap::new(), closed: false, flow_context }
    }

    /// A datagram from a client: where it goes. One to a multicast address is skipped. The client
    /// is remembered under the port that it sends to.
    pub fn on_upstream(&mut self, src_addr: SocketAddr, dst_addr: SocketAddr) -> (r: Option<
        DestinationAddr,
    >)
        ensures
            final(self).closed == old(self).closed,
            if is_multicast(dst_addr.ip) {
                r is None && *final(self) == *old(self)
            } else {
                &&& r matches Some(d) && d@ == dest_of(dst_addr)
                &&& final(self).port_mappings@ == old(self).port_mappings@.insert(
                    dst_addr.port,
                    src_addr,
                )
                &&& final(self).flow_context.local_peer == src_addr
                &&& final(self).flow_context.remote_peer@ == dest_of(dst_addr)
                &&& final(self).flow_context.af_sensitive == old(self).flow_context.af_sensitive
                &&& final(self).flow_context.application_layer_protocol == old(
                    self,
                ).flow_context.application_layer_protocol
            },
    {
        if multicast(dst_addr.ip) {
            return None;
        }
        self.flow_context.local_peer = src_addr;
        self.flow_context.remote_peer = DestinationAddr::from_socket_addr(dst_addr);
        self.port_mappings.insert(dst_addr.port, src_addr);
        Some(DestinationAddr::from_socket_addr(dst_addr))
    }

    /// The client that a datagram goes down to: the one remembered under the port that the
    /// datagram comes from, or the one it names.
    pub open spec fn client_of(&self, src: SocketAddr, dst: SocketAddr) -> SocketAddr {
        if self.port_mappings@.contains_key(src.port) {
            self.port_mappings@[src.port]
        } else {
            dst
        }
    }

    /// A datagram down to a client: what goes to the device.
    pub fn on_downstream(&self, pkt: UdpPacket) -> (r: UdpPacket)
        ensures
            r.data == pkt.data,
            r.src_addr == answer_source(),
            r.dst_addr == self.client_of(pkt.src_addr, pkt.dst_addr),
    {
        let dst_addr = match self.port_mappings.get(&pkt.src_addr.port) {
            Some(client) => *client,
            None => pkt.dst_addr,
        };
        let src_addr = SocketAddr { ip: IpAddr::V4(Ipv4Addr { bits: 0x08080808 }), port: 53 };
        UdpPacket { data: pkt.data, src_addr, dst_addr }
    }

    /// An answer from a server for the client that was last seen. One from a name is dropped.
    pub fn send_to(&self, remote_peer: DestinationAddr, buf: Vec<u8>) -> (r: Option<UdpPacket>)
        ensures
            match (remote_peer.host, r) {
                (HostName::Ip(ip), Some(p)) => p.data == buf && p.src_addr == (SocketAddr {
                    ip,
                    port: remote_peer.port,
                }) && p.dst_addr == self.flow_context.local_peer,
                (HostName::DomainName(_), None) => true,
                _ => false,
            },
    {
        match remote_peer.host {
            HostName::Ip(ip) => Some(
                UdpPacket {
                    data: buf,
                    src_addr: SocketAddr { ip, port: remote_peer.port },
                    dst_addr: self.flow_context.local_peer,
                },
            ),
            HostName::DomainName(_) => None,
        }
    }

    /// The session ends: it was shut down, or nothing more comes from the device.
    pub fn shut_down(&mut self)
        ensures
            *final(self) == (TunDatagramSession { closed: true, ..*old(self) }),
    {
        self.closed = true;
    }
}

/// The answer to a datagram goes back to the client that sent it, from whatever server it comes
/// with the same port.
pub proof fn answered_to_sender(
    before: TunDatagramSession,
    after: TunDatagramSession,
    client: SocketAddr,
    server: SocketAddr,
    other: SocketAddr,
)
    requires
        after.port_mappings@ == before.port_mappings@.insert(server.port, client),
    ensures
        after.client_of(server, other) == client,
{
}

/// Hands sessions on. `next` is `None` once the next handler is gone.
pub struct TunDatagramHandler<N> {
    pub next: Option<N>,
}

impl<N> TunDatagramHandler<N> {
    pub fn new(next: Option<N>) -> (r: Self)
        ensures
            r.next == next,
    {
        TunDatagramHandler { next }
    }

    /// The handler that a session goes to; nothing where it is gone.
    pub fn on_session(&self) -> (r: Option<&N>)
        ensures
            match r {
                Some(n) => self.next == Some(*n),
                None => self.next is None,
            },
    {
        match &self.next {
            Some(n) => Some(n),
            None => None,
        }
    }
}

// ---- Laws ----
/// A datagram of a client goes where it was sent, unless that is a multicast address, 224.0.0.0 to
/// 239.255.255.255 or one that begins with ff: then nothing changes.
pub proof fn multicast_is_skipped(
    s: &mut TunDatagramSession,
    src: SocketAddr,
    dst: SocketAddr,
    r: Option<DestinationAddr>,
)
    requires
        call_ensures(TunDatagramSession::on_upstream, (s, src, dst), r),
    ensures
        r is None <==> (match dst.ip {
            IpAddr::V4(ip) => 224 * 0x100_0000 <= ip.bits < 240 * 0x100_0000,
            IpAddr::V6(ip) => ip.bits >= 0xff * 0x1_0000_0000_0000_0000_0000_0000_0000_00,
        }),
        r is None ==> *final(s) == *old(s),
        r matches Some(d) ==> d@.host == HostView::Ip(dst.ip) && d@.port == dst.port,
{
    if let IpAddr::V4(ip) = dst.ip {
        assert(ip.bits / 0x1000_0000 == 14 <==> 14 * 0x1000_0000 <= ip.bits < 15 * 0x1000_0000);
    }
}

/// What comes down from a port that a client has sent to goes to that client, and is said to come from
/// port 53 of 8.8.8.8, with its data. What comes from another port goes to whom it was for, where
/// nobody sent to that port.
pub proof fn answers_find_their_client(
    context: FlowContext,
    fresh: TunDatagramSession,
    s: &mut TunDatagramSession,
    client: SocketAddr,
    server: SocketAddr,
    sent: Option<DestinationAddr>,
    pkt: UdpPacket,
    r: UdpPacket,
)
    requires
        call_ensures(TunDatagramSession::new, (context,), fresh),
        *s == fresh,
        call_ensures(TunDatagramSession::on_upstream, (s, client, server), sent),
        sent is Some,
        call_ensures(TunDatagramSession::on_downstream, (&*final(s), pkt), r),
    ensures
        r.data == pkt.data,
        r.src_addr.port == 53,
        r.src_addr.ip == IpAddr::V4(
            Ipv4Addr { bits: (8 * 0x100_0000 + 8 * 0x1_0000 + 8 * 0x100 + 8) as u32 },
        ),
        pkt.src_addr.port == server.port ==> r.dst_addr == client,
        pkt.src_addr.port != server.port ==> r.dst_addr == pkt.dst_addr,
{
}

/// An answer of a server goes to the client that was last seen, from the server; a name answers nobody.
pub proof fn servers_answer_the_last_client(
    s: &mut TunDatagramSession,
    client: SocketAddr,
    dst: SocketAddr,
    sent: Option<DestinationAddr>,
    server: DestinationAddr,
    buf: Vec<u8>,
    r: Option<UdpPacket>,
)
    requires
        call_ensures(TunDatagramSession::on_upstream, (s, client, dst), sent),
        sent is Some,
        call_ensures(TunDatagramSession::send_to, (&*final(s), server, buf), r),
    ensures
        r is Some <==> server@.host is Ip,
        r matches Some(p) ==> p.data == buf && p.dst_addr == client && HostView::Ip(p.src_addr.ip)
            == server@.host && p.src_addr.port == server@.port,
{
    match server.host {
        HostName::Ip(ip) => {
            assert(server@.host == HostView::Ip(ip));
        },
        HostName::DomainName(name) => {
            assert(server@.host == HostView::DomainName(name@));
        },
    }
}

} // verus!
