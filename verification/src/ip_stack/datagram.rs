//! Datagrams that go back to a client behind the TUN device.
use vstd::prelude::*;

use crate::be::be_bytes;
use crate::be::push_be;
use crate::checksum::internet_checksum;
use crate::checksum::udp_checksum;
use crate::deps::packet::fill_ipv4_checksum;
use crate::deps::packet::fill_udp_checksum_v4;
use crate::deps::packet::fill_udp_checksum_v6;
use crate::deps::packet::word_at;
use crate::flow::tun::TunBufferToken;
use crate::flow::DestView;
use crate::flow::DestinationAddr;
use crate::flow::HostName;
use crate::flow::HostView;
use crate::ip_stack::overwrite;
use crate::ip_stack::packet_spec;
use crate::ip_stack::transport_spec;
use crate::ip_stack::PacketView;
use crate::net::IpAddr;
use crate::net::Ipv4Addr;
use crate::net::Ipv6Addr;
use crate::net::SocketAddr;

verus! {

/// The longest payload that is sent.
pub const MAX_PAYLOAD: usize = 1452;

/// The room that is set aside for the headers, whichever they are.
pub const HEADER_ROOM: usize = 48;

/// The session of one client.
pub struct IpStackDatagramSession {
    pub local_endpoint: SocketAddr,
}

/// A UDP segment whose checksum field is zero.
pub open spec fn segment_zero(src_port: u16, dst_port: u16, payload: Seq<u8>) -> Seq<u8> {
    be_bytes(src_port as nat, 2) + be_bytes(dst_port as nat, 2) + be_bytes(
        (8 + payload.len()) as nat,
        2,
    ) + seq![0u8, 0] + payload
}

/// A UDP segment with its checksum.
pub open spec fn segment(src: Seq<u8>, dst: Seq<u8>, src_port: u16, dst_port: u16, payload: Seq<u8>) -> Seq<u8> {
    let zero = segment_zero(src_port, dst_port, payload);
    let c = be_bytes(udp_checksum(src, dst, zero) as nat, 2);
    zero.update(6, c[0]).update(7, c[1])
}

/// An IPv4 header whose checksum field is zero. The fields that are not set here keep what `old`
/// has in them: the service class, the identifier, and two of the flags.
pub open spec fn ipv4_header_zero(old: Seq<u8>, src: Ipv4Addr, dst: Ipv4Addr, len: nat) -> Seq<u8> {
    seq![0x45u8, old[1]] + be_bytes((28 + len) as nat, 2) + seq![
        old[4],
        old[5],
        ((old[6] / 128) * 128 + 64 + ((old[6] / 32) % 2) * 32) as u8,
        0u8,
        255u8,
        17u8,
        0u8,
        0u8,
    ] + src.octets_spec() + dst.octets_spec()
}

/// An IPv4 header with its checksum.
pub open spec fn ipv4_header(old: Seq<u8>, src: Ipv4Addr, dst: Ipv4Addr, len: nat) -> Seq<u8> {
    let zero = ipv4_header_zero(old, src, dst, len);
    let c = be_bytes(internet_checksum(zero) as nat, 2);
    zero.update(10, c[0]).update(11, c[1])
}

/// An IPv6 header. The traffic class keeps what `old` has in it; the flow label is zero.
pub open spec fn ipv6_header(old: Seq<u8>, src: Ipv6Addr, dst: Ipv6Addr, len: nat) -> Seq<u8> {
    seq![(0x60 + old[0] % 16) as u8, ((old[1] / 16) * 16) as u8, 0u8, 0u8] + be_bytes(
        (8 + len) as nat,
        2,
    ) + seq![17u8, 255u8] + src.octets_spec() + dst.octets_spec()
}

/// The packet from `src` to the client, written over the beginning of `old`. There is none between
/// the two families.
pub open spec fn packet_to(local: SocketAddr, src: DestView, payload: Seq<u8>, old: Seq<u8>) -> Option<Seq<u8>> {
    match (local.ip, src.host) {
        (IpAddr::V4(dst), HostView::Ip(IpAddr::V4(from))) => Some(
            ipv4_header(old, from, dst, payload.len()) + segment(
                from.octets_spec(),
                dst.octets_spec(),
                src.port,
                local.port,
                payload,
            ),
        ),
        (IpAddr::V6(dst), HostView::Ip(IpAddr::V6(from))) => Some(
            ipv6_header(old, from, dst, payload.len()) + segment(
                from.octets_spec(),
                dst.octets_spec(),
                src.port,
                local.port,
                payload,
            ),
        ),
        _ => None,
    }
}

/// What becomes of the buffer that was fetched for a datagram.
pub enum SendVerdict {
    /// The first `len` bytes of the buffer are sent.
    Send { buffer: TunBufferToken, len: usize },
    /// Nothing is sent.
    Keep { buffer: TunBufferToken },
}

fn build_segment_zero(src_port: u16, dst_port: u16, payload: &[u8]) -> (r: Vec<u8>)
    requires
        payload@.len() <= MAX_PAYLOAD,
    ensures
        r@ == segment_zero(src_port, dst_port, payload@),
        r@.len() == 8 + payload@.len(),
        crate::deps::packet::word_at(r@, 4) == r@.len(),
{
    let n: usize = payload.len();
    let mut s: Vec<u8> = Vec::new();
    push_be(&mut s, src_port as u128, 2);
    push_be(&mut s, dst_port as u128, 2);
    push_be(&mut s, 8 + n as u128, 2);
    s.push(0);
    s.push(0);
    s.extend_from_slice(payload);
    proof {
        crate::be::lemma_be_bytes_len(src_port as nat, 2);
        crate::be::lemma_be_bytes_len(dst_port as nat, 2);
        crate::be::lemma_pow256_values();
        crate::be::be_round_trip((8 + n) as nat, 2);
        crate::be::lemma_be_value_two(be_bytes((8 + n) as nat, 2));
        assert(s@ =~= segment_zero(src_port, dst_port, payload@));
        assert(s@[4] == be_bytes((8 + n) as nat, 2)[0]);
        assert(s@[5] == be_bytes((8 + n) as nat, 2)[1]);
    }
    s
}

fn build_v4(
    old: &Vec<u8>,
    from: Ipv4Addr,
    dst: Ipv4Addr,
    src_port: u16,
    dst_port: u16,
    payload: &[u8],
) -> (r: Vec<u8>)
    requires
        payload@.len() <= MAX_PAYLOAD,
        old@.len() >= 8,
    ensures
        r@ == ipv4_header(old@, from, dst, payload@.len()) + segment(
            from.octets_spec(),
            dst.octets_spec(),
            src_port,
            dst_port,
            payload@,
        ),
        r@.len() == 28 + payload@.len(),
{
    let n: usize = payload.len();
    let mut header: Vec<u8> = Vec::new();
    header.push(0x45);
    header.push(old[1]);
    push_be(&mut header, 28 + n as u128, 2);
    header.push(old[4]);
    header.push(old[5]);
    let flags: u8 = (old[6] / 128) * 128 + 64 + ((old[6] / 32) % 2) * 32;
    header.push(flags);
    header.push(0);
    header.push(255);
    header.push(17);
    header.push(0);
    header.push(0);
    push_be(&mut header, from.bits as u128, 4);
    push_be(&mut header, dst.bits as u128, 4);
    let ghost zero = ipv4_header_zero(old@, from, dst, n as nat);
    proof {
        crate::be::lemma_be_bytes_len((28 + n) as nat, 2);
        crate::be::lemma_be_bytes_len(from.bits as nat, 4);
        crate::be::lemma_be_bytes_len(dst.bits as nat, 4);
        assert(header@ =~= zero);
        assert(zero.update(10, 0).update(11, 0) =~= zero);
    }
    fill_ipv4_checksum(&mut header);
    let mut seg = build_segment_zero(src_port, dst_port, payload);
    proof {
        assert(seg@.update(6, 0).update(7, 0) =~= seg@);
    }
    fill_udp_checksum_v4(&mut seg, from, dst);
    header.extend_from_slice(seg.as_slice());
    assert(header@ =~= ipv4_header(old@, from, dst, n as nat) + segment(
        from.octets_spec(),
        dst.octets_spec(),
        src_port,
        dst_port,
        payload@,
    ));
    header
}

fn build_v6(
    old: &Vec<u8>,
    from: Ipv6Addr,
    dst: Ipv6Addr,
    src_port: u16,
    dst_port: u16,
    payload: &[u8],
) -> (r: Vec<u8>)
    requires
        payload@.len() <= MAX_PAYLOAD,
        old@.len() >= 8,
    ensures
        r@ == ipv6_header(old@, from, dst, payload@.len()) + segment(
            from.octets_spec(),
            dst.octets_spec(),
            src_port,
            dst_port,
            payload@,
        ),
        r@.len() == 48 + payload@.len(),
{
    let n: usize = payload.len();
    let mut header: Vec<u8> = Vec::new();
    header.push(0x60 + old[0] % 16);
    header.push((old[1] / 16) * 16);
    header.push(0);
    header.push(0);
    push_be(&mut header, 8 + n as u128, 2);
    header.push(17);
    header.push(255);
    push_be(&mut header, from.bits, 16);
    push_be(&mut header, dst.bits, 16);
    proof {
        crate::be::lemma_be_bytes_len((8 + n) as nat, 2);
        crate::be::lemma_be_bytes_len(from.bits as nat, 16);
        crate::be::lemma_be_bytes_len(dst.bits as nat, 16);
        assert(header@ =~= ipv6_header(old@, from, dst, n as nat));
    }
    let mut seg = build_segment_zero(src_port, dst_port, payload);
    proof {
        assert(seg@.update(6, 0).update(7, 0) =~= seg@);
    }
    fill_udp_checksum_v6(&mut seg, from, dst);
    header.extend_from_slice(seg.as_slice());
    assert(header@ =~= ipv6_header(old@, from, dst, n as nat) + segment(
        from.octets_spec(),
        dst.octets_spec(),
        src_port,
        dst_port,
        payload@,
    ));
    header
}

impl IpStackDatagramSession {
    /// Whether a datagram from `src` can be sent at all: it is not too long, and `src` is an
    /// address. Only then is a buffer fetched for it.
    pub fn can_send(&self, src: &DestinationAddr, payload: &[u8]) -> (r: bool)
        ensures
            r == (payload@.len() <= MAX_PAYLOAD && src.host@ is Ip),
    {
        if payload.len() > MAX_PAYLOAD {
            return false;
        }
        match &src.host {
            HostName::Ip(_) => true,
            HostName::DomainName(_) => false,
        }
    }

    /// Puts the datagram `payload` from `src` into `buffer`. What is sent is longer than the packet
    /// where the packet is IPv4: the room for the headers is always sent whole.
    pub fn send_to(&self, src: &DestinationAddr, payload: &[u8], buffer: TunBufferToken) -> (r:
        SendVerdict)
        requires
            payload@.len() <= MAX_PAYLOAD,
            buffer.data@.len() >= payload@.len() + HEADER_ROOM,
        ensures
            match r {
                SendVerdict::Send { buffer: b, len } => {
                    &&& len == payload@.len() + HEADER_ROOM
                    &&& b.signature == buffer.signature
                    &&& (packet_to(self.local_endpoint, src@, payload@, buffer.data@) matches Some(
                        p,
                    ) && p.len() <= len && b.data@ == p + buffer.data@.subrange(
                        p.len() as int,
                        buffer.data@.len() as int,
                    ))
                },
                SendVerdict::Keep { buffer: b } => {
                    &&& b == buffer
                    &&& packet_to(self.local_endpoint, src@, payload@, buffer.data@) is None
                },
            },
    {
        let len: usize = payload.len() + HEADER_ROOM;
        let packet = match (&self.local_endpoint.ip, &src.host) {
            (IpAddr::V4(dst), HostName::Ip(IpAddr::V4(from))) => {
                build_v4(&buffer.data, *from, *dst, src.port, self.local_endpoint.port, payload)
            },
            (IpAddr::V6(dst), HostName::Ip(IpAddr::V6(from))) => {
                build_v6(&buffer.data, *from, *dst, src.port, self.local_endpoint.port, payload)
            },
            _ => {
                return SendVerdict::Keep { buffer };
            },
        };
        let mut data = buffer.data;
        overwrite(&mut data, packet.as_slice());
        SendVerdict::Send { buffer: TunBufferToken { signature: buffer.signature, data }, len }
    }
}

/// The header of an IPv4 packet that goes back passes the test that a receiver makes on its
/// checksum.
pub proof fn ipv4_header_verifies(old: Seq<u8>, src: Ipv4Addr, dst: Ipv4Addr, len: nat)
    requires
        len <= MAX_PAYLOAD,
        old.len() >= 8,
    ensures
        crate::checksum::fold(crate::checksum::word_sum(ipv4_header(old, src, dst, len)))
            == 0xffff,
{
    let zero = ipv4_header_zero(old, src, dst, len);
    crate::be::lemma_be_bytes_len((28 + len) as nat, 2);
    crate::be::lemma_be_bytes_len(src.bits as nat, 4);
    crate::be::lemma_be_bytes_len(dst.bits as nat, 4);
    crate::be::lemma_be_bytes_len(0, 2);
    crate::be::lemma_be_bytes_two(0);
    let front = zero.subrange(0, 10);
    let back = zero.subrange(12, 20);
    let c = internet_checksum(zero);
    crate::be::lemma_be_bytes_len(c as nat, 2);
    assert(crate::checksum::with_checksum(front, 0, back) =~= zero);
    assert(front[0] == 0x45);
    crate::checksum::checksum_verifies(front, back);
    assert(crate::checksum::with_checksum(front, c, back) =~= ipv4_header(old, src, dst, len));
}

/// What is in front of `payload` in a segment, and where the payload is.
proof fn lemma_segment_read(src: Seq<u8>, dst: Seq<u8>, src_port: u16, dst_port: u16, payload: Seq<u8>)
    requires
        payload.len() <= MAX_PAYLOAD,
    ensures
        ({
            let s = segment(src, dst, src_port, dst_port, payload);
            &&& s.len() == 8 + payload.len()
            &&& word_at(s, 0) == src_port
            &&& word_at(s, 2) == dst_port
            &&& word_at(s, 4) == 8 + payload.len()
            &&& s.subrange(8, 8 + payload.len() as int) == payload
        }),
{
    let s = segment(src, dst, src_port, dst_port, payload);
    let n = (8 + payload.len()) as nat;
    crate::be::lemma_pow256_values();
    crate::be::be_round_trip(n, 2);
    crate::be::be_round_trip(src_port as nat, 2);
    crate::be::be_round_trip(dst_port as nat, 2);
    crate::be::lemma_be_value_two(be_bytes(n, 2));
    crate::be::lemma_be_value_two(be_bytes(src_port as nat, 2));
    crate::be::lemma_be_value_two(be_bytes(dst_port as nat, 2));
    assert(s[0] == be_bytes(src_port as nat, 2)[0] && s[1] == be_bytes(src_port as nat, 2)[1]);
    assert(s[2] == be_bytes(dst_port as nat, 2)[0] && s[3] == be_bytes(dst_port as nat, 2)[1]);
    assert(s[4] == be_bytes(n, 2)[0] && s[5] == be_bytes(n, 2)[1]);
    assert(s.subrange(8, 8 + payload.len() as int) =~= payload);
}

proof fn lemma_ipv4_read(
    from: Ipv4Addr,
    dst: Ipv4Addr,
    old_bytes: Seq<u8>,
    seg: Seq<u8>,
    n: nat,
    rest: Seq<u8>,
)
    requires
        n <= MAX_PAYLOAD,
        seg.len() == 8 + n,
    ensures
        packet_spec(ipv4_header(old_bytes, from, dst, n) + seg + rest) == transport_spec(
            IpAddr::V4(from),
            IpAddr::V4(dst),
            17,
            seg,
        ),
{
    let h = ipv4_header(old_bytes, from, dst, n);
    let b = h + seg + rest;
    crate::be::lemma_pow256_values();
    crate::be::be_round_trip((28 + n) as nat, 2);
    crate::be::be_round_trip(from.bits as nat, 4);
    crate::be::be_round_trip(dst.bits as nat, 4);
    crate::be::lemma_be_value_two(be_bytes((28 + n) as nat, 2));
    assert(h.len() == 20);
    assert(h[0] == 0x45 && h[9] == 17);
    assert(h[2] == be_bytes((28 + n) as nat, 2)[0] && h[3] == be_bytes((28 + n) as nat, 2)[1]);
    assert(h.subrange(12, 16) =~= from.octets_spec());
    assert(h.subrange(16, 20) =~= dst.octets_spec());
    assert(b.subrange(12, 16) =~= h.subrange(12, 16));
    assert(b.subrange(16, 20) =~= h.subrange(16, 20));
    assert(word_at(b, 2) == 28 + n);
    assert(b.subrange(20, 28 + n as int) =~= seg);
}

proof fn lemma_ipv6_read(
    from: Ipv6Addr,
    dst: Ipv6Addr,
    old_bytes: Seq<u8>,
    seg: Seq<u8>,
    n: nat,
    rest: Seq<u8>,
)
    requires
        n <= MAX_PAYLOAD,
        seg.len() == 8 + n,
    ensures
        packet_spec(ipv6_header(old_bytes, from, dst, n) + seg + rest) == transport_spec(
            IpAddr::V6(from),
            IpAddr::V6(dst),
            17,
            seg,
        ),
{
    let h = ipv6_header(old_bytes, from, dst, n);
    let b = h + seg + rest;
    crate::be::lemma_pow256_values();
    crate::be::be_round_trip((8 + n) as nat, 2);
    crate::be::be_round_trip(from.bits as nat, 16);
    crate::be::be_round_trip(dst.bits as nat, 16);
    crate::be::lemma_be_value_two(be_bytes((8 + n) as nat, 2));
    assert(h.len() == 40);
    assert(h[0] == 0x60 + old_bytes[0] % 16 && h[6] == 17);
    assert(h[4] == be_bytes((8 + n) as nat, 2)[0] && h[5] == be_bytes((8 + n) as nat, 2)[1]);
    assert(h.subrange(8, 24) =~= from.octets_spec());
    assert(h.subrange(24, 40) =~= dst.octets_spec());
    assert(b.subrange(8, 24) =~= h.subrange(8, 24));
    assert(b.subrange(24, 40) =~= h.subrange(24, 40));
    assert(word_at(b, 4) == 8 + n);
    assert(b.subrange(40, 48 + n as int) =~= seg);
}

/// A packet that goes back to a client is read, whatever is behind it, as a datagram with the
/// payload, from the source to the client.
pub proof fn datagram_read_back(
    local: SocketAddr,
    src: DestView,
    payload: Seq<u8>,
    old_bytes: Seq<u8>,
    rest: Seq<u8>,
)
    requires
        payload.len() <= MAX_PAYLOAD,
        packet_to(local, src, payload, old_bytes) is Some,
    ensures
        src.host matches HostView::Ip(ip) && packet_spec(
            packet_to(local, src, payload, old_bytes)->0 + rest,
        ) == (PacketView::Udp { src: SocketAddr { ip, port: src.port }, dst: local, payload }),
{
    match (local.ip, src.host) {
        (IpAddr::V4(dst), HostView::Ip(IpAddr::V4(from))) => {
            let (f, d) = (from.octets_spec(), dst.octets_spec());
            let seg = segment(f, d, src.port, local.port, payload);
            lemma_segment_read(f, d, src.port, local.port, payload);
            lemma_ipv4_read(from, dst, old_bytes, seg, payload.len(), rest);
        },
        (IpAddr::V6(dst), HostView::Ip(IpAddr::V6(from))) => {
            let (f, d) = (from.octets_spec(), dst.octets_spec());
            let seg = segment(f, d, src.port, local.port, payload);
            lemma_segment_read(f, d, src.port, local.port, payload);
            lemma_ipv6_read(from, dst, old_bytes, seg, payload.len(), rest);
        },
        _ => {},
    }
}

/// A datagram that goes back to a client is read as one from its source to the client, with its payload,
/// in front of whatever the buffer held. Only a source of the family of the client can send one.
pub proof fn datagrams_reach_the_client(
    s: &IpStackDatagramSession,
    src: &DestinationAddr,
    payload: &[u8],
    buffer: TunBufferToken,
    can: bool,
    r: SendVerdict,
)
    requires
        payload@.len() <= 1452,
        buffer.data@.len() >= payload@.len() + 48,
        call_ensures(IpStackDatagramSession::can_send, (s, src, payload), can),
        call_ensures(IpStackDatagramSession::send_to, (s, src, payload, buffer), r),
    ensures
        can <==> src@.host is Ip,
        r is Send <==> (src@.host matches HostView::Ip(ip) && (ip is V4 <==> s.local_endpoint.ip
            is V4)),
        r matches SendVerdict::Send { buffer: b, len } ==> b.signature == buffer.signature && len
            == payload@.len() + 48 && packet_spec(b.data@) == (PacketView::Udp {
            src: SocketAddr { ip: src@.host->Ip_0, port: src@.port },
            dst: s.local_endpoint,
            payload: payload@,
        }),
        r matches SendVerdict::Keep { buffer: b } ==> b == buffer,
{
    if let SendVerdict::Send { buffer: b, len } = r {
        let p = packet_to(s.local_endpoint, src@, payload@, buffer.data@)->0;
        datagram_read_back(
            s.local_endpoint,
            src@,
            payload@,
            buffer.data@,
            buffer.data@.subrange(p.len() as int, buffer.data@.len() as int),
        );
    }
}

/// The header of an IPv4 packet that goes back has room for 255 hops, is not to be cut into pieces, and
/// is no piece; what says nothing of that stays as it was.
pub proof fn ipv4_packets_are_whole(old: Seq<u8>, src: Ipv4Addr, dst: Ipv4Addr, len: nat)
    requires
        len <= 1452,
        old.len() >= 8,
    ensures
        ({
            let h = ipv4_header(old, src, dst, len);
            &&& h.len() == 20
            &&& h[8] == 255
            &&& (h[6] / 64) % 2 == 1
            &&& h[6] % 32 == 0 && h[7] == 0
            &&& h[6] / 128 == old[6] / 128 && (h[6] / 32) % 2 == (old[6] / 32) % 2
            &&& h[1] == old[1] && h[4] == old[4] && h[5] == old[5]
        }),
{
    crate::be::lemma_be_bytes_len((28 + len) as nat, 2);
    crate::be::lemma_be_bytes_len(src.bits as nat, 4);
    crate::be::lemma_be_bytes_len(dst.bits as nat, 4);
    let z = ipv4_header_zero(old, src, dst, len);
    assert(z.len() == 20);
    let a = old[6];
    assert(z[6] == ((a / 128) * 128 + 64 + ((a / 32) % 2) * 32) as u8);
    assert(z[7] == 0 && z[8] == 255);
    assert(z[1] == old[1] && z[4] == old[4] && z[5] == old[5]);
    let b = ((a / 128) * 128 + 64 + ((a / 32) % 2) * 32) as u8;
    assert(b == (a / 128) * 128 + 64 + ((a / 32) % 2) * 32);
    assert(a / 128 <= 1);
}

/// The header of an IPv6 packet that goes back has room for 255 hops, no flow label, and the traffic
/// class that was there.
pub proof fn ipv6_packets_keep_their_class(old: Seq<u8>, src: Ipv6Addr, dst: Ipv6Addr, len: nat)
    requires
        len <= 1452,
        old.len() >= 8,
    ensures
        ({
            let h = ipv6_header(old, src, dst, len);
            &&& h.len() == 40
            &&& h[7] == 255
            &&& h[0] % 16 == old[0] % 16 && h[1] / 16 == old[1] / 16
            &&& h[1] % 16 == 0 && h[2] == 0 && h[3] == 0
        }),
{
    crate::be::lemma_be_bytes_len((8 + len) as nat, 2);
    crate::be::lemma_be_bytes_len(src.bits as nat, 16);
    crate::be::lemma_be_bytes_len(dst.bits as nat, 16);
}

/// A datagram that goes back passes the test that a receiver makes on its checksum: with the addresses,
/// the protocol and the length it adds up to all ones.
pub proof fn datagrams_verify(
    src: Seq<u8>,
    dst: Seq<u8>,
    src_port: u16,
    dst_port: u16,
    payload: Seq<u8>,
)
    requires
        payload.len() <= 1452,
        src.len() % 2 == 0,
        dst.len() % 2 == 0,
    ensures
        ({
            let len = 8 + payload.len();
            let head = src + dst + seq![0u8, 17, (len / 256) as u8, (len % 256) as u8];
            crate::checksum::fold(
                crate::checksum::word_sum(head) + crate::checksum::word_sum(
                    segment(src, dst, src_port, dst_port, payload),
                ),
            ) == 0xffff
        }),
{
    let zero = segment_zero(src_port, dst_port, payload);
    let len = 8 + payload.len();
    let front = be_bytes(src_port as nat, 2) + be_bytes(dst_port as nat, 2) + be_bytes(len as nat, 2);
    let c = udp_checksum(src, dst, zero);
    crate::be::lemma_be_bytes_len(src_port as nat, 2);
    crate::be::lemma_be_bytes_len(dst_port as nat, 2);
    crate::be::lemma_be_bytes_len(len as nat, 2);
    crate::be::lemma_be_bytes_len(c as nat, 2);
    assert(zero.len() == len);
    assert(zero =~= front + (seq![0u8, 0] + payload));
    let seg = segment(src, dst, src_port, dst_port, payload);
    assert(seg =~= front + (be_bytes(c as nat, 2) + payload));
    crate::checksum::lemma_word_sum_concat(front, seq![0u8, 0] + payload);
    crate::checksum::lemma_word_sum_concat(seq![0u8, 0], payload);
    crate::checksum::lemma_word_sum_concat(front, be_bytes(c as nat, 2) + payload);
    crate::checksum::lemma_word_sum_concat(be_bytes(c as nat, 2), payload);
    crate::checksum::lemma_word_sum_one(c);
    crate::checksum::words_have_their_high_byte_first(0, 0, Seq::empty());
    assert(seq![0u8, 0] + Seq::<u8>::empty() =~= seq![0u8, 0]);
    let head = src + dst + seq![0u8, 17, (len / 256) as u8, (len % 256) as u8];
    assert(head =~= crate::checksum::pseudo_header(src, dst, len as nat));
    let s = crate::checksum::word_sum(head) + crate::checksum::word_sum(zero);
    let t = crate::checksum::word_sum(head) + crate::checksum::word_sum(seg);
    assert(t == s + c);
    lemma_head_counts(src, dst, len as nat);
    crate::checksum::lemma_fold(s);
    crate::checksum::lemma_fold(t);
    let f = crate::checksum::fold(s);
    if f == 0xffff {
        assert(c == 0xffff);
        assert(t % 65535 == 0) by (nonlinear_arith)
            requires
                t == s + 65535,
                f == 65535,
                f % 65535 == s % 65535,
        ;
    } else {
        assert(c == 0xffff - f);
        assert(t % 65535 == 0) by (nonlinear_arith)
            requires
                t == s + 65535 - f,
                f % 65535 == s % 65535,
                f <= 65535,
        ;
    }
    let g = crate::checksum::fold(t);
    assert(g == 65535) by (nonlinear_arith)
        requires
            0 < g <= 65535,
            g % 65535 == 0,
    ;
}

proof fn lemma_head_counts(src: Seq<u8>, dst: Seq<u8>, len: nat)
    requires
        src.len() % 2 == 0,
        dst.len() % 2 == 0,
    ensures
        crate::checksum::word_sum(
            src + dst + seq![0u8, 17, (len / 256) as u8, (len % 256) as u8],
        ) > 0,
{
    let end = seq![0u8, 17, (len / 256) as u8, (len % 256) as u8];
    let rest = seq![(len / 256) as u8, (len % 256) as u8];
    assert(end =~= seq![0u8, 17] + rest);
    crate::checksum::words_have_their_high_byte_first(0, 17, rest);
    crate::checksum::lemma_word_sum_concat(src + dst, end);
}

} // verus!
