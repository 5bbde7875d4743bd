//! SOCKS5 datagrams: the header in front of each payload.
use vstd::prelude::*;
use vstd::slice::slice_subrange;
use vstd::slice::slice_to_vec;

use crate::be::be_bytes;
use crate::be::push_be;
use crate::flow::DestView;
use crate::flow::DestinationAddr;
use crate::flow::HostName;
use crate::flow::HostView;
use crate::net::IpAddr;
use crate::shadowsocks::util::dest_bytes;
use crate::shadowsocks::util::parse_dest;
use crate::shadowsocks::util::parse_dest_spec;

verus! {

/// The destination and the payload of a datagram from a client. Its first three bytes are skipped.
pub open spec fn unwrap_spec(data: Seq<u8>) -> Option<(DestView, Seq<u8>)> {
    if data.len() <= 3 {
        None
    } else {
        match parse_dest_spec(data.subrange(3, data.len() as int)) {
            Some((dest, n)) => Some((dest, data.subrange(3 + n, data.len() as int))),
            None => None,
        }
    }
}

/// A datagram to a client. The header always says IPv4; other addresses are left out of it.
pub open spec fn wrap_spec(addr: DestView, payload: Seq<u8>) -> Seq<u8> {
    let ip = match addr.host {
        HostView::Ip(IpAddr::V4(ip)) => ip.octets_spec(),
        _ => Seq::empty(),
    };
    seq![0u8, 0, 0, 1] + ip + be_bytes(addr.port as nat, 2) + payload
}

pub open spec fn recv_view(r: Option<(DestinationAddr, Vec<u8>)>) -> Option<(DestView, Seq<u8>)> {
    match r {
        Some((dest, data)) => Some((dest@, data@)),
        None => None,
    }
}

/// Takes the SOCKS5 header off the datagrams of a client, and puts it on those that go back.
pub struct TransparentSession {
    pub client_addr: Option<DestinationAddr>,
}

impl TransparentSession {
    pub fn new() -> (s: Self)
        ensures
            s.client_addr is None,
    {
        TransparentSession { client_addr: None }
    }

    /// A datagram came from `addr`, which is remembered. `None` ends the session.
    pub fn on_recv(&mut self, addr: DestinationAddr, data: &[u8]) -> (r: Option<
        (DestinationAddr, Vec<u8>),
    >)
        ensures
            final(self).client_addr == Some(addr),
            recv_view(r) == unwrap_spec(data@),
    {
        self.client_addr = Some(addr);
        if data.len() <= 3 {
            return None;
        }
        match parse_dest(slice_subrange(data, 3, data.len())) {
            Some((dest, n)) => {
                let payload = slice_to_vec(slice_subrange(data, 3 + n, data.len()));
                Some((dest, payload))
            },
            None => None,
        }
    }

    /// The datagram that carries `buf` from `addr` back to the client.
    pub fn send_to(&self, addr: &DestinationAddr, buf: &[u8]) -> (r: Vec<u8>)
        ensures
            r@ == wrap_spec(addr@, buf@),
    {
        let mut response: Vec<u8> = vec![0, 0, 0, 1];
        if let HostName::Ip(IpAddr::V4(ip)) = &addr.host {
            push_be(&mut response, ip.bits as u128, 4);
        }
        push_be(&mut response, addr.port as u128, 2);
        response.extend_from_slice(buf);
        assert(response@ =~= wrap_spec(addr@, buf@));
        response
    }
}

/// Accepts SOCKS5 datagrams and hands them to `next`.
pub struct Socks5UdpHandler<N> {
    pub bind_addr: Option<DestinationAddr>,
    pub next: N,
}

impl<N> Socks5UdpHandler<N> {
    pub fn new(bind_addr: Option<DestinationAddr>, next: N) -> (h: Self)
        ensures
            h.bind_addr == bind_addr,
            h.next == next,
    {
        Socks5UdpHandler { bind_addr, next }
    }
}

/// What a client puts behind the header for a destination arrives as the payload for it.
pub proof fn datagram_round_trip(dest: DestView, payload: Seq<u8>)
    requires
        crate::shadowsocks::util::dest_fits(dest),
    ensures
        unwrap_spec(seq![0u8, 0, 0] + dest_bytes(dest) + payload) == Some((dest, payload)),
{
    let b = dest_bytes(dest);
    let data = seq![0u8, 0, 0] + b + payload;
    crate::shadowsocks::util::dest_round_trip(dest, payload);
    assert(data.subrange(3, data.len() as int) =~= b + payload);
    assert(b.len() > 0);
    assert(data.subrange(b.len() as int + 3, data.len() as int) =~= payload);
}

/// What goes back to the client from an IPv4 address names that address and carries the payload.
pub proof fn ipv4_reply_round_trip(addr: DestView, payload: Seq<u8>)
    requires
        addr.host matches HostView::Ip(IpAddr::V4(_)),
    ensures
        unwrap_spec(wrap_spec(addr, payload)) == Some((addr, payload)),
{
    datagram_round_trip(addr, payload);
    assert(wrap_spec(addr, payload) =~= seq![0u8, 0, 0] + dest_bytes(addr) + payload);
}

// ---- Laws ----
/// A datagram of a client is the payload for the destination behind its first three bytes, whatever
/// those are; the client is remembered as the one to answer.
pub proof fn datagrams_are_unwrapped(
    s: &mut TransparentSession,
    from: DestinationAddr,
    data: &[u8],
    r: Option<(DestinationAddr, Vec<u8>)>,
    head: Seq<u8>,
    dest: DestView,
    payload: Seq<u8>,
)
    requires
        head.len() == 3,
        crate::shadowsocks::util::dest_fits(dest),
        data@ == head + dest_bytes(dest) + payload,
        call_ensures(TransparentSession::on_recv, (s, from, data), r),
    ensures
        r matches Some((d, p)) && d@ == dest && p@ == payload,
        final(s).client_addr == Some(from),
{
    let b = dest_bytes(dest);
    crate::shadowsocks::util::dest_round_trip(dest, payload);
    assert(data@.subrange(3, data@.len() as int) =~= b + payload);
    assert(data@.subrange(b.len() as int + 3, data@.len() as int) =~= payload);
}

/// A datagram without a whole destination ends the session.
pub proof fn short_datagrams_end_the_session(
    s: &mut TransparentSession,
    from: DestinationAddr,
    data: &[u8],
    r: Option<(DestinationAddr, Vec<u8>)>,
    dest: DestView,
    n: int,
)
    requires
        crate::shadowsocks::util::dest_fits(dest),
        0 <= n < dest_bytes(dest).len(),
        data@ == seq![0u8, 0, 0] + dest_bytes(dest).take(n),
        call_ensures(TransparentSession::on_recv, (s, from, data), r),
    ensures
        r is None,
        final(s).client_addr == Some(from),
{
    if data@.len() > 3 {
        assert(data@.subrange(3, data@.len() as int) =~= dest_bytes(dest).take(n));
        crate::shadowsocks::util::unfinished_destinations_are_not_read(dest, n);
    }
}

/// What goes back to a client from an IPv4 address has an empty head, the type for IPv4, the address,
/// the port, high byte first, and the payload.
pub proof fn replies_on_the_wire(
    s: &TransparentSession,
    from: &DestinationAddr,
    buf: &[u8],
    r: Vec<u8>,
    a: u8,
    b: u8,
    c: u8,
    d: u8,
)
    requires
        from.host@ == HostView::Ip(
            IpAddr::V4(
                crate::net::Ipv4Addr {
                    bits: (a * 0x100_0000 + b * 0x1_0000 + c * 0x100 + d) as u32,
                },
            ),
        ),
        call_ensures(TransparentSession::send_to, (s, from, buf), r),
    ensures
        r@ == seq![0u8, 0, 0, 1, a, b, c, d] + seq![(from.port / 256) as u8, (from.port % 256) as u8]
            + buf@,
{
    let dest = from@;
    crate::shadowsocks::util::ipv4_destinations_on_the_wire(a, b, c, d, from.port);
    assert(r@ =~= seq![0u8, 0, 0] + dest_bytes(dest) + buf@);
    assert(r@ =~= seq![0u8, 0, 0, 1, a, b, c, d] + seq![(from.port / 256) as u8, (from.port % 256) as u8]
            + buf@);
}

} // verus!
