//! Datagrams of many clients on one socket.
use vstd::prelude::*;

use crate::flow::DestinationAddr;
use crate::flow::FlowContext;
use crate::flow::HostName;
use crate::flow::HostView;
use crate::net::SocketAddr;
use crate::tables::AddrMap;

verus! {

/// What becomes of a datagram.
pub enum ListenVerdict {
    /// It goes to the session of its sender.
    Deliver,
    /// A session is made for its sender, then it goes there.
    Open(FlowContext),
}

/// Decides on a datagram that came from `from` to the socket at `listen`.
pub fn listen_udp<T>(sessions: &AddrMap<T>, from: SocketAddr, listen: SocketAddr) -> (r:
    ListenVerdict)
    ensures
        sessions@.contains_key(from) ==> r is Deliver,
        !sessions@.contains_key(from) ==> (r matches ListenVerdict::Open(c) && c.local_peer == from
            && c.remote_peer@ == (crate::flow::DestView {
            host: HostView::Ip(listen.ip),
            port: listen.port,
        }) && c.af_sensitive && c.application_layer_protocol is None),
{
    if sessions.contains(from) {
        ListenVerdict::Deliver
    } else {
        ListenVerdict::Open(
            FlowContext::new_af_sensitive(from, DestinationAddr::from_socket_addr(listen)),
        )
    }
}

/// After a datagram was handed to the session of `from`: one that takes no more leaves the table.
pub fn after_send<T>(sessions: &mut AddrMap<T>, from: SocketAddr, taken: bool)
    requires
        old(sessions).wf(),
    ensures
        final(sessions).wf(),
        final(sessions)@ == (if taken {
            old(sessions)@
        } else {
            old(sessions)@.remove(from)
        }),
{
    if !taken {
        sessions.remove(from);
    }
}

/// The session of one client. At most one datagram waits to be sent to it.
pub struct InboundUdpSession {
    pub tx_buf: Option<(SocketAddr, Vec<u8>)>,
    pub client_addr: DestinationAddr,
}

impl InboundUdpSession {
    pub fn new(from: SocketAddr) -> (s: Self)
        ensures
            s.tx_buf is None,
            s.client_addr@ == (crate::flow::DestView {
                host: HostView::Ip(from.ip),
                port: from.port,
            }),
    {
        InboundUdpSession { tx_buf: None, client_addr: DestinationAddr::from_socket_addr(from) }
    }

    /// A datagram is to go back. It goes to the client, whatever address it is said to be for, and
    /// takes the place of one that waits.
    pub fn send_to(&mut self, buf: Vec<u8>)
        ensures
            final(self).client_addr == old(self).client_addr,
            match old(self).client_addr.host {
                HostName::Ip(ip) => final(self).tx_buf == Some(
                    (SocketAddr { ip, port: old(self).client_addr.port }, buf),
                ),
                HostName::DomainName(_) => final(self).tx_buf == old(self).tx_buf,
            },
    {
        if let HostName::Ip(ip) = &self.client_addr.host {
            let addr = SocketAddr { ip: *ip, port: self.client_addr.port };
            self.tx_buf = Some((addr, buf));
        }
    }

    /// The socket can send: the datagram that waits is taken to be sent.
    pub fn take_ready(&mut self) -> (r: Option<(SocketAddr, Vec<u8>)>)
        ensures
            r == old(self).tx_buf,
            final(self).tx_buf is None,
            final(self).client_addr == old(self).client_addr,
    {
        self.tx_buf.take()
    }
}

// ---- Laws ----
/// The first datagram of a client opens a session, from the client to the socket; those that follow go
/// there, until the session takes no more. Then the next one opens a session again.
pub proof fn clients_have_one_session(
    t: &mut AddrMap<u8>,
    session: u8,
    from: SocketAddr,
    listen: SocketAddr,
    first: ListenVerdict,
    second: ListenVerdict,
    u: &mut AddrMap<u8>,
    taken: bool,
    third: ListenVerdict,
)
    requires
        t.wf(),
        !t@.contains_key(from),
        call_ensures(listen_udp::<u8>, (&*old(t), from, listen), first),
        call_ensures(AddrMap::<u8>::insert, (t, from, session), ()),
        call_ensures(listen_udp::<u8>, (&*final(t), from, listen), second),
        *u == *final(t),
        call_ensures(after_send::<u8>, (u, from, taken), ()),
        call_ensures(listen_udp::<u8>, (&*final(u), from, listen), third),
    ensures
        first matches ListenVerdict::Open(c) && c.local_peer == from && c.remote_peer@.host
            == HostView::Ip(listen.ip) && c.remote_peer@.port == listen.port && c.af_sensitive,
        second is Deliver,
        third is Deliver <==> taken,
{
}

/// What is sent back to a client goes to the address that it came from, once; what was sent last takes
/// the place of what still waits.
pub proof fn datagrams_go_back_to_the_client(
    from: SocketAddr,
    fresh: InboundUdpSession,
    s: &mut InboundUdpSession,
    earlier: Vec<u8>,
    t: &mut InboundUdpSession,
    buf: Vec<u8>,
    u: &mut InboundUdpSession,
    first: Option<(SocketAddr, Vec<u8>)>,
    v: &mut InboundUdpSession,
    second: Option<(SocketAddr, Vec<u8>)>,
)
    requires
        call_ensures(InboundUdpSession::new, (from,), fresh),
        *s == fresh,
        call_ensures(InboundUdpSession::send_to, (s, earlier), ()),
        *t == *final(s),
        call_ensures(InboundUdpSession::send_to, (t, buf), ()),
        *u == *final(t),
        call_ensures(InboundUdpSession::take_ready, (u,), first),
        *v == *final(u),
        call_ensures(InboundUdpSession::take_ready, (v,), second),
    ensures
        first == Some((from, buf)),
        second is None,
{
    match fresh.client_addr.host {
        HostName::Ip(ip) => {
            assert(fresh.client_addr@.host == HostView::Ip(ip));
        },
        HostName::DomainName(name) => {
            assert(fresh.client_addr@.host == HostView::DomainName(name@));
        },
    }
}

} // verus!
