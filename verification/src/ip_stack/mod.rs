//! The IP stack behind a TUN device: what each packet is, and what becomes of it.
pub mod datagram;
pub mod device;
pub mod wire;

use vstd::prelude::*;
use vstd::slice::slice_subrange;
use vstd::slice::slice_to_vec;

use crate::be::be_bytes;
use crate::be::be_value;
use crate::be::push_be;
use crate::checksum::checksum_of;
use crate::checksum::internet_checksum;
use crate::checksum::with_checksum;
use crate::deps::dns_message::decode_request;
use crate::deps::dns_message::dns_reply;
use crate::deps::dns_message::dns_request;
use crate::deps::dns_message::encode_reply;
use crate::deps::dns_message::DnsReply;
use crate::deps::dns_message::DnsReplyView;
use crate::deps::dns_message::DnsRequest;
use crate::deps::dns_message::DnsRequestView;
use crate::deps::packet::ipv4_fits;
use crate::deps::packet::ipv4_header_len;
use crate::deps::packet::ipv6_fits;
use crate::deps::packet::read_ipv4;
use crate::deps::packet::read_ipv6;
use crate::deps::packet::read_tcp;
use crate::deps::packet::read_udp;
use crate::deps::packet::tcp_fits;
use crate::deps::packet::udp_fits;
use crate::deps::packet::word_at;
use crate::fakeip::FakeIp;
use crate::flow::tun::TunBufferToken;
use crate::flow::DestinationAddr;
use crate::flow::FlowContext;
use crate::net::IpAddr;
use crate::net::Ipv4Addr;
use crate::net::Ipv6Addr;
use crate::net::SocketAddr;
use crate::tables::AddrMap;
use crate::tun::exchange_with_resolver::answer_of;
use crate::tun::exchange_with_resolver::exchange_with_resolver;
use crate::tun::exchange_with_resolver::host_of;
use crate::tun::exchange_with_resolver::refusal_of;
use crate::tun::exchange_with_resolver::refuse;
use crate::tun::exchange_with_resolver::TYPE_AAAA;

verus! {

// ---- What a packet is ----
/// A packet, as far as the stack is concerned.
pub enum Packet {
    Ignored,
    Tcp { src: SocketAddr, dst: SocketAddr, syn: bool },
    Udp { src: SocketAddr, dst: SocketAddr, payload: Vec<u8> },
}

#[verifier::ext_equal]
pub enum PacketView {
    Ignored,
    Tcp { src: SocketAddr, dst: SocketAddr, syn: bool },
    Udp { src: SocketAddr, dst: SocketAddr, payload: Seq<u8> },
}

impl View for Packet {
    type V = PacketView;

    open spec fn view(&self) -> PacketView {
        match self {
            Packet::Ignored => PacketView::Ignored,
            Packet::Tcp { src, dst, syn } => PacketView::Tcp { src: *src, dst: *dst, syn: *syn },
            Packet::Udp { src, dst, payload } => PacketView::Udp {
                src: *src,
                dst: *dst,
                payload: payload@,
            },
        }
    }
}

/// What the payload of an IP packet is.
pub open spec fn transport_spec(src: IpAddr, dst: IpAddr, protocol: u8, b: Seq<u8>) -> PacketView {
    if protocol == 6 && tcp_fits(b) {
        PacketView::Tcp {
            src: SocketAddr { ip: src, port: word_at(b, 0) as u16 },
            dst: SocketAddr { ip: dst, port: word_at(b, 2) as u16 },
            syn: (b[13] / 2) % 2 == 1,
        }
    } else if protocol == 17 && udp_fits(b) {
        PacketView::Udp {
            src: SocketAddr { ip: src, port: word_at(b, 0) as u16 },
            dst: SocketAddr { ip: dst, port: word_at(b, 2) as u16 },
            payload: b.subrange(8, word_at(b, 4)),
        }
    } else {
        PacketView::Ignored
    }
}

/// What a packet is: TCP or UDP over IPv4 or IPv6, with lengths that fit, or nothing of interest.
pub open spec fn packet_spec(b: Seq<u8>) -> PacketView {
    if b.len() < 20 {
        PacketView::Ignored
    } else if b[0] / 16 == 4 && ipv4_fits(b) {
        transport_spec(
            IpAddr::V4(Ipv4Addr { bits: be_value(b.subrange(12, 16)) as u32 }),
            IpAddr::V4(Ipv4Addr { bits: be_value(b.subrange(16, 20)) as u32 }),
            b[9],
            b.subrange(ipv4_header_len(b), word_at(b, 2)),
        )
    } else if b[0] / 16 == 6 && ipv6_fits(b) {
        transport_spec(
            IpAddr::V6(Ipv6Addr { bits: be_value(b.subrange(8, 24)) as u128 }),
            IpAddr::V6(Ipv6Addr { bits: be_value(b.subrange(24, 40)) as u128 }),
            b[6],
            b.subrange(40, 40 + word_at(b, 4)),
        )
    } else {
        PacketView::Ignored
    }
}

fn transport(src: IpAddr, dst: IpAddr, protocol: u8, b: &[u8]) -> (r: Packet)
    ensures
        r@ == transport_spec(src, dst, protocol, b@),
{
    if protocol == 6 {
        match read_tcp(b) {
            Some(f) => Packet::Tcp {
                src: SocketAddr { ip: src, port: f.src_port },
                dst: SocketAddr { ip: dst, port: f.dst_port },
                syn: f.syn,
            },
            None => Packet::Ignored,
        }
    } else if protocol == 17 {
        match read_udp(b) {
            Some(f) => Packet::Udp {
                src: SocketAddr { ip: src, port: f.src_port },
                dst: SocketAddr { ip: dst, port: f.dst_port },
                payload: slice_to_vec(slice_subrange(b, 8, f.end)),
            },
            None => Packet::Ignored,
        }
    } else {
        Packet::Ignored
    }
}

/// Tells what a packet is.
pub fn process_packet(packet: &[u8]) -> (r: Packet)
    ensures
        r@ == packet_spec(packet@),
{
    if packet.len() < 20 {
        return Packet::Ignored;
    }
    match packet[0] / 16 {
        4 => {
            match read_ipv4(packet) {
                Some(f) => {
                    proof {
                        crate::be::lemma_be_value_bound(packet@.subrange(12, 16));
                        crate::be::lemma_be_value_bound(packet@.subrange(16, 20));
                        crate::be::lemma_pow256_values();
                    }
                    transport(
                        IpAddr::V4(Ipv4Addr { bits: f.src as u32 }),
                        IpAddr::V4(Ipv4Addr { bits: f.dst as u32 }),
                        f.protocol,
                        slice_subrange(packet, f.start, f.end),
                    )
                },
                None => Packet::Ignored,
            }
        },
        6 => {
            match read_ipv6(packet) {
                Some(f) => transport(
                    IpAddr::V6(Ipv6Addr { bits: f.src }),
                    IpAddr::V6(Ipv6Addr { bits: f.dst }),
                    f.protocol,
                    slice_subrange(packet, f.start, f.end),
                ),
                None => Packet::Ignored,
            }
        },
        _ => Packet::Ignored,
    }
}

// ---- TCP ----
/// What becomes of a TCP packet.
pub enum TcpVerdict {
    /// The packet goes to the socket that its source has.
    Deliver,
    /// A socket that listens on the destination is made for the source, then the packet goes there.
    Open(FlowContext),
    /// Nobody takes new connections.
    Drop,
}

/// Decides on a TCP packet. `sockets` are the sockets by the address of the client, `next` says
/// whether somebody takes new connections.
pub fn process_tcp<H>(
    sockets: &AddrMap<H>,
    next: bool,
    src: SocketAddr,
    dst: SocketAddr,
) -> (r: TcpVerdict)
    ensures
        sockets@.contains_key(src) ==> r is Deliver,
        !sockets@.contains_key(src) && !next ==> r is Drop,
        !sockets@.contains_key(src) && next ==> (r matches TcpVerdict::Open(c) && c.local_peer
            == src && c.remote_peer@ == (crate::flow::DestView {
            host: crate::flow::HostView::Ip(dst.ip),
            port: dst.port,
        }) && !c.af_sensitive && c.application_layer_protocol is None),
{
    if sockets.contains(src) {
        TcpVerdict::Deliver
    } else if !next {
        TcpVerdict::Drop
    } else {
        TcpVerdict::Open(FlowContext::new(src, DestinationAddr::from_socket_addr(dst)))
    }
}

// ---- UDP: DNS queries that are answered on the spot ----
/// What is done about a UDP packet before it is handed on.
pub enum DnsStep {
    /// It is no query to be answered here.
    Pass,
    /// It is dealt with, and there is nothing to send.
    Discard,
    /// `message` answers it. Where the answer cannot be sent in a packet, a refusal is dropped, and
    /// another query is handed on.
    Reply { message: Vec<u8>, refused: bool },
}

#[verifier::ext_equal]
pub enum DnsStepView {
    Pass,
    Discard,
    Reply { message: Seq<u8>, refused: bool },
}

impl View for DnsStep {
    type V = DnsStepView;

    open spec fn view(&self) -> DnsStepView {
        match self {
            DnsStep::Pass => DnsStepView::Pass,
            DnsStep::Discard => DnsStepView::Discard,
            DnsStep::Reply { message, refused } => DnsStepView::Reply {
                message: message@,
                refused: *refused,
            },
        }
    }
}

pub const DNS_PORT: u16 = 53;

/// Whether the query in `req` asks for IPv6 addresses.
pub open spec fn asks_ipv6(req: DnsRequestView) -> bool {
    req.questions.len() > 0 && req.questions[0].qtype == TYPE_AAAA
}

/// What is done about a request, given the fake address of its name and how the two replies that
/// can be made are encoded.
pub open spec fn dns_step(
    req: Option<DnsRequestView>,
    ip: Ipv4Addr,
    encode: spec_fn(DnsReplyView) -> Option<Seq<u8>>,
) -> DnsStepView {
    match req {
        None => DnsStepView::Pass,
        Some(req) => if req.questions.len() == 0 {
            DnsStepView::Pass
        } else if asks_ipv6(req) {
            match encode(refusal_of(req)) {
                Some(message) => DnsStepView::Reply { message, refused: true },
                None => DnsStepView::Discard,
            }
        } else {
            match encode(answer_of(req, seq![ip])) {
                Some(message) => DnsStepView::Reply { message, refused: false },
                None => DnsStepView::Pass,
            }
        },
    }
}

/// The reply to a request, and whether it refuses it. There is none to a request without a
/// question.
pub fn plan_reply(req: &DnsRequest, resolver: &mut FakeIp) -> (r: Option<(DnsReply, bool)>)
    requires
        old(resolver).wf(),
    ensures
        final(resolver).wf(),
        req@.questions.len() == 0 ==> r is None && *final(resolver) == *old(resolver),
        asks_ipv6(req@) ==> (r matches Some((m, refused)) && m@ == refusal_of(req@) && refused)
            && *final(resolver) == *old(resolver),
        req@.questions.len() > 0 && !asks_ipv6(req@) ==> (r matches Some((m, refused)) && m@
            == answer_of(
            req@,
            seq![old(resolver).addr_v4(old(resolver).index_of(host_of(req@)))],
        ) && !refused) && final(resolver).follows(*old(resolver), host_of(req@)),
{
    if req.questions.len() == 0 {
        return None;
    }
    assert(req@.questions[0] == req.questions@[0]@);
    if req.questions[0].qtype == TYPE_AAAA {
        return Some((refuse(req), true));
    }
    match exchange_with_resolver(resolver, req) {
        Ok(reply) => Some((reply, false)),
        Err(_) => None,
    }
}

/// What is done about a request whose reply was encoded to `message`, or could not be encoded.
pub fn encoded_reply(message: Option<Vec<u8>>, refused: bool) -> (r: DnsStep)
    ensures
        r@ == (match message {
            Some(message) => DnsStepView::Reply { message: message@, refused },
            None => if refused {
                DnsStepView::Discard
            } else {
                DnsStepView::Pass
            },
        }),
{
    match message {
        Some(message) => DnsStep::Reply { message, refused },
        None => if refused {
            DnsStep::Discard
        } else {
            DnsStep::Pass
        },
    }
}

/// Answers a DNS query out of the fake addresses, where queries are to be answered here.
pub fn hijack_dns(
    dns_hijack: bool,
    dst_port: u16,
    payload: &[u8],
    resolver: Option<&mut FakeIp>,
) -> (r: DnsStep)
    requires
        resolver matches Some(f) ==> f.wf(),
    ensures
        resolver matches Some(f) ==> final(f).wf(),
        !dns_hijack || dst_port != DNS_PORT || resolver is None ==> r@ is Pass,
        dns_hijack && dst_port == DNS_PORT ==> (resolver matches Some(f) ==> r@ == dns_step(
            dns_request(payload@),
            f.addr_v4(f.index_of(host_of(dns_request(payload@)->0))),
            |m: DnsReplyView| dns_reply(payload@, m),
        )),
        resolver matches Some(f) ==> if dns_hijack && dst_port == DNS_PORT && (dns_request(
            payload@,
        ) matches Some(req) && req.questions.len() > 0 && !asks_ipv6(req)) {
            final(f).follows(*f, host_of(dns_request(payload@)->0))
        } else {
            *final(f) == *f
        },
{
    match resolver {
        None => DnsStep::Pass,
        Some(f) => {
            if !dns_hijack || dst_port != DNS_PORT {
                return DnsStep::Pass;
            }
            match decode_request(payload) {
                None => DnsStep::Pass,
                Some(req) => match plan_reply(&req, f) {
                    None => DnsStep::Pass,
                    Some((reply, refused)) => {
                        let message = encode_reply(payload, &reply);
                        encoded_reply(message, refused)
                    },
                },
            }
        },
    }
}

// ---- UDP: the packet that carries an answer ----
/// The header of the packet that carries an answer, up to its checksum.
pub open spec fn answer_header_front(message_len: nat) -> Seq<u8> {
    seq![0x45u8, 0] + be_bytes((28 + message_len) as nat, 2) + seq![0u8, 0, 0, 0, 64, 17]
}

/// The addresses in the header of the packet that carries an answer.
pub open spec fn answer_header_back(from: Ipv4Addr, to: Ipv4Addr) -> Seq<u8> {
    from.octets_spec() + to.octets_spec()
}

/// The header of the packet that carries an answer.
pub open spec fn answer_header(message_len: nat, from: Ipv4Addr, to: Ipv4Addr) -> Seq<u8> {
    let front = answer_header_front(message_len);
    let back = answer_header_back(from, to);
    with_checksum(front, internet_checksum(with_checksum(front, 0, back)), back)
}

/// The packet that carries an answer from `from` to `to`. Its UDP checksum is left out.
pub open spec fn answer_packet(from: Ipv4Addr, from_port: u16, to: Ipv4Addr, to_port: u16, message: Seq<u8>) -> Seq<u8> {
    answer_header(message.len(), from, to) + be_bytes(from_port as nat, 2) + be_bytes(
        to_port as nat,
        2,
    ) + be_bytes((8 + message.len()) as nat, 2) + seq![0u8, 0] + message
}

/// The longest answer that is sent.
pub const MAX_ANSWER: usize = 1472;

fn build_answer(from: Ipv4Addr, from_port: u16, to: Ipv4Addr, to_port: u16, message: &[u8]) -> (r:
    Vec<u8>)
    requires
        message@.len() <= MAX_ANSWER,
    ensures
        r@ == answer_packet(from, from_port, to, to_port, message@),
        r@.len() == 28 + message@.len(),
{
    let n: usize = message.len();
    let mut front: Vec<u8> = vec![0x45, 0];
    push_be(&mut front, 28 + n as u128, 2);
    let rest: [u8; 6] = [0, 0, 0, 0, 64, 17];
    front.extend_from_slice(rest.as_slice());
    assert(front@ =~= answer_header_front(n as nat));
    let mut back: Vec<u8> = Vec::new();
    push_be(&mut back, from.bits as u128, 4);
    push_be(&mut back, to.bits as u128, 4);
    assert(back@ =~= answer_header_back(from, to));
    let mut zero: Vec<u8> = front.clone();
    push_be(&mut zero, 0, 2);
    zero.extend_from_slice(back.as_slice());
    assert(zero@ =~= with_checksum(front@, 0, back@));
    proof {
        crate::be::lemma_be_bytes_len((28 + n) as nat, 2);
        crate::be::lemma_be_bytes_len(0, 2);
        crate::be::lemma_be_bytes_len(from.bits as nat, 4);
        crate::be::lemma_be_bytes_len(to.bits as nat, 4);
        crate::be::lemma_be_bytes_len(from_port as nat, 2);
        crate::be::lemma_be_bytes_len(to_port as nat, 2);
        crate::be::lemma_be_bytes_len((8 + n) as nat, 2);
    }
    let sum: u16 = checksum_of(zero.as_slice());
    proof {
        crate::be::lemma_be_bytes_len(sum as nat, 2);
    }
    let mut packet: Vec<u8> = front;
    push_be(&mut packet, sum as u128, 2);
    packet.extend_from_slice(back.as_slice());
    assert(packet@ =~= answer_header(n as nat, from, to));
    push_be(&mut packet, from_port as u128, 2);
    push_be(&mut packet, to_port as u128, 2);
    push_be(&mut packet, 8 + n as u128, 2);
    packet.push(0);
    packet.push(0);
    packet.extend_from_slice(message);
    assert(packet@ =~= answer_packet(from, from_port, to, to_port, message@));
    packet
}

/// What becomes of an answer, and of the buffer that was fetched for it.
pub enum ReplyVerdict {
    /// The first `len` bytes of the buffer are sent.
    Send { buffer: TunBufferToken, len: usize },
    /// The buffer goes back, and the query with it or, if `forward`, on to its session.
    GiveBack { buffer: TunBufferToken, forward: bool },
}

/// Writes `src` over the beginning of `dst`.
pub(crate) fn overwrite(dst: &mut Vec<u8>, src: &[u8])
    requires
        src@.len() <= old(dst)@.len(),
    ensures
        final(dst)@ == src@ + old(dst)@.subrange(src@.len() as int, old(dst)@.len() as int),
{
    let ghost before = dst@;
    let mut i: usize = 0;
    while i < src.len()
        invariant
            i <= src@.len() <= dst@.len(),
            dst@.len() == before.len(),
            forall|j: int| 0 <= j < i ==> dst@[j] == src@[j],
            forall|j: int| i <= j < dst@.len() ==> dst@[j] == before[j],
        decreases src@.len() - i,
    {
        dst[i] = src[i];
        i += 1;
    }
    assert(dst@ =~= src@ + before.subrange(src@.len() as int, before.len() as int));
}

/// Whether an answer of `len` bytes to a query from `src` to `dst` goes out in a packet: it is not
/// too long, and both addresses are IPv4.
pub open spec fn answerable(len: nat, src: SocketAddr, dst: SocketAddr) -> bool {
    len <= MAX_ANSWER && src.ip is V4 && dst.ip is V4
}

/// Puts the answer `message` to the query from `src` to `dst` into `buffer`.
pub fn place_reply(
    src: SocketAddr,
    dst: SocketAddr,
    message: &[u8],
    refused: bool,
    buffer: TunBufferToken,
) -> (r: ReplyVerdict)
    requires
        answerable(message@.len(), src, dst) ==> buffer.data@.len() >= 28 + message@.len(),
    ensures
        match r {
            ReplyVerdict::Send { buffer: b, len } => {
                &&& answerable(message@.len(), src, dst)
                &&& len == 28 + message@.len()
                &&& b.signature == buffer.signature
                &&& b.data@.len() == buffer.data@.len()
                &&& b.data@.subrange(0, len as int) == answer_packet(
                    dst.ip->V4_0,
                    dst.port,
                    src.ip->V4_0,
                    src.port,
                    message@,
                )
                &&& b.data@.subrange(len as int, b.data@.len() as int) == buffer.data@.subrange(
                    len as int,
                    b.data@.len() as int,
                )
            },
            ReplyVerdict::GiveBack { buffer: b, forward } => {
                &&& !answerable(message@.len(), src, dst)
                &&& b == buffer
                &&& forward == (message@.len() <= MAX_ANSWER && !refused)
            },
        },
{
    if message.len() > MAX_ANSWER {
        return ReplyVerdict::GiveBack { buffer, forward: false };
    }
    match (src.ip, dst.ip) {
        (IpAddr::V4(to), IpAddr::V4(from)) => {
            let packet = build_answer(from, dst.port, to, src.port, message);
            let mut data = buffer.data;
            let ghost before = data@;
            overwrite(&mut data, packet.as_slice());
            let len: usize = packet.len();
            assert(data@.subrange(0, len as int) =~= packet@);
            assert(data@.subrange(len as int, data@.len() as int) =~= before.subrange(
                len as int,
                before.len() as int,
            ));
            ReplyVerdict::Send {
                buffer: TunBufferToken { signature: buffer.signature, data },
                len,
            }
        },
        _ => ReplyVerdict::GiveBack { buffer, forward: !refused },
    }
}

// ---- UDP: sessions ----
/// What becomes of a datagram that is handed on.
pub enum UdpVerdict {
    /// It goes to the session of its source.
    Deliver,
    /// A session is made for its source, then it goes there.
    Open(FlowContext),
    /// Nobody takes new sessions.
    Drop,
}

/// How a session took a datagram.
pub enum Delivery {
    Taken,
    Full,
    Gone,
}

/// What is right for a datagram that is handed on: `known` says whether its source has a session,
/// `next` whether somebody takes new ones.
pub open spec fn forwards(v: UdpVerdict, known: bool, next: bool, src: SocketAddr, dst: SocketAddr) -> bool {
    if known {
        v is Deliver
    } else if !next {
        v is Drop
    } else {
        v matches UdpVerdict::Open(c) && c.local_peer == src && c.remote_peer@ == (
        crate::flow::DestView { host: crate::flow::HostView::Ip(dst.ip), port: dst.port })
            && c.af_sensitive && c.application_layer_protocol is None
    }
}

/// Decides on a datagram that is handed on. `sessions` are the sessions by the address of the
/// client, `next` says whether somebody takes new sessions.
pub fn forward_udp<T>(
    sessions: &AddrMap<T>,
    next: bool,
    src: SocketAddr,
    dst: SocketAddr,
) -> (r: UdpVerdict)
    ensures
        forwards(r, sessions@.contains_key(src), next, src, dst),
{
    if sessions.contains(src) {
        UdpVerdict::Deliver
    } else if !next {
        UdpVerdict::Drop
    } else {
        UdpVerdict::Open(
            FlowContext::new_af_sensitive(src, DestinationAddr::from_socket_addr(dst)),
        )
    }
}

/// What is done about a datagram.
pub enum UdpStep {
    /// It is handed on.
    Forward(UdpVerdict),
    /// It is dealt with.
    Discard,
    /// It is answered with `message`, once there is a buffer to send it in.
    NeedBuffer { message: Vec<u8>, refused: bool },
}

/// What is right for a datagram, given what is done about the DNS query in it.
pub open spec fn steps(
    r: UdpStep,
    dns: DnsStepView,
    known: bool,
    next: bool,
    src: SocketAddr,
    dst: SocketAddr,
) -> bool {
    match dns {
        DnsStepView::Pass => r matches UdpStep::Forward(v) && forwards(v, known, next, src, dst),
        DnsStepView::Discard => r is Discard,
        DnsStepView::Reply { message, refused } => r matches UdpStep::NeedBuffer {
            message: m,
            refused: f,
        } && m@ == message && f == refused,
    }
}

/// Decides on a datagram that came in: a DNS query is answered out of the fake addresses, where
/// queries are to be answered here, and everything else is handed on.
pub fn process_udp<T>(
    sessions: &AddrMap<T>,
    next: bool,
    src: SocketAddr,
    dst: SocketAddr,
    payload: &[u8],
    dns_hijack: bool,
    resolver: Option<&mut FakeIp>,
) -> (r: UdpStep)
    requires
        resolver matches Some(f) ==> f.wf(),
    ensures
        resolver matches Some(f) ==> final(f).wf(),
        !dns_hijack || dst.port != DNS_PORT || resolver is None ==> steps(
            r,
            DnsStepView::Pass,
            sessions@.contains_key(src),
            next,
            src,
            dst,
        ),
        dns_hijack && dst.port == DNS_PORT ==> (resolver matches Some(f) ==> steps(
            r,
            dns_step(
                dns_request(payload@),
                f.addr_v4(f.index_of(host_of(dns_request(payload@)->0))),
                |m: DnsReplyView| dns_reply(payload@, m),
            ),
            sessions@.contains_key(src),
            next,
            src,
            dst,
        )),
        resolver matches Some(f) ==> if dns_hijack && dst.port == DNS_PORT && (dns_request(
            payload@,
        ) matches Some(req) && req.questions.len() > 0 && !asks_ipv6(req)) {
            final(f).follows(*f, host_of(dns_request(payload@)->0))
        } else {
            *final(f) == *f
        },
{
    match hijack_dns(dns_hijack, dst.port, payload, resolver) {
        DnsStep::Pass => UdpStep::Forward(forward_udp(sessions, next, src, dst)),
        DnsStep::Discard => UdpStep::Discard,
        DnsStep::Reply { message, refused } => UdpStep::NeedBuffer { message, refused },
    }
}

/// What is done about a datagram that is to be answered.
pub enum AnswerStep {
    /// There is no buffer: nothing is done.
    Nothing,
    /// The first `len` bytes of the buffer are sent.
    Send { buffer: TunBufferToken, len: usize },
    /// The buffer goes back. The datagram is handed on, where `forward` says how.
    GiveBack { buffer: TunBufferToken, forward: Option<UdpVerdict> },
}

/// Decides on a datagram that is to be answered with `message`, now that a buffer was asked for.
pub fn answer_udp<T>(
    sessions: &AddrMap<T>,
    next: bool,
    src: SocketAddr,
    dst: SocketAddr,
    message: &[u8],
    refused: bool,
    buffer: Option<TunBufferToken>,
) -> (r: AnswerStep)
    requires
        buffer matches Some(b) ==> answerable(message@.len(), src, dst) ==> b.data@.len() >= 28
            + message@.len(),
    ensures
        match (buffer, r) {
            (None, AnswerStep::Nothing) => true,
            (Some(given), AnswerStep::Send { buffer: b, len }) => {
                &&& answerable(message@.len(), src, dst)
                &&& len == 28 + message@.len()
                &&& b.signature == given.signature
                &&& b.data@ == answer_packet(
                    dst.ip->V4_0,
                    dst.port,
                    src.ip->V4_0,
                    src.port,
                    message@,
                ) + given.data@.subrange(len as int, given.data@.len() as int)
            },
            (Some(given), AnswerStep::GiveBack { buffer: b, forward }) => {
                &&& !answerable(message@.len(), src, dst)
                &&& b == given
                &&& if message@.len() <= MAX_ANSWER && !refused {
                    forward matches Some(v) && forwards(
                        v,
                        sessions@.contains_key(src),
                        next,
                        src,
                        dst,
                    )
                } else {
                    forward is None
                }
            },
            _ => false,
        },
{
    match buffer {
        None => AnswerStep::Nothing,
        Some(given) => match place_reply(src, dst, message, refused, given) {
            ReplyVerdict::Send { buffer, len } => {
                assert(buffer.data@ =~= buffer.data@.subrange(0, len as int)
                    + buffer.data@.subrange(len as int, buffer.data@.len() as int));
                AnswerStep::Send { buffer, len }
            },
            ReplyVerdict::GiveBack { buffer, forward } => {
                let verdict = if forward {
                    Some(forward_udp(sessions, next, src, dst))
                } else {
                    None
                };
                AnswerStep::GiveBack { buffer, forward: verdict }
            },
        },
    }
}

/// After a datagram was offered to the session of `src`: a session that is gone leaves the table. A
/// datagram for a full one is lost.
pub fn after_delivery<T>(sessions: &mut AddrMap<T>, src: SocketAddr, delivery: Delivery)
    requires
        old(sessions).wf(),
    ensures
        final(sessions).wf(),
        final(sessions)@ == (if delivery is Gone {
            old(sessions)@.remove(src)
        } else {
            old(sessions)@
        }),
{
    match delivery {
        Delivery::Gone => {
            sessions.remove(src);
        },
        _ => {},
    }
}

// ---- Timers ----
/// Whether a poll that was scheduled is still wanted at `now`: no more urgent one was scheduled.
pub fn poll_still_due(now: i64, most_recent_scheduled_poll: i64) -> (r: bool)
    ensures
        r == (now <= most_recent_scheduled_poll),
{
    now <= most_recent_scheduled_poll
}

/// The time of the next poll, if one has to be scheduled: the stack asks for one in `delay`
/// milliseconds, and none is scheduled before that.
pub fn next_poll(now: i64, delay: Option<i64>, most_recent_scheduled_poll: i64) -> (r: Option<i64>)
    requires
        delay matches Some(d) ==> i64::MIN <= now + d <= i64::MAX,
    ensures
        r == (match delay {
            Some(d) if now + d < most_recent_scheduled_poll => Some((now + d) as i64),
            _ => None,
        }),
{
    match delay {
        Some(d) => {
            let at: i64 = now + d;
            if at >= most_recent_scheduled_poll {
                None
            } else {
                Some(at)
            }
        },
        None => None,
    }
}

// ---- Laws ----
/// The header of an answer passes the test that a receiver makes on its checksum.
pub proof fn answer_header_verifies(message_len: nat, from: Ipv4Addr, to: Ipv4Addr)
    ensures
        crate::checksum::fold(crate::checksum::word_sum(answer_header(message_len, from, to)))
            == 0xffff,
{
    let front = answer_header_front(message_len);
    crate::be::lemma_be_bytes_len((28 + message_len) as nat, 2);
    assert(front.len() == 10);
    assert(front[0] == 0x45);
    crate::checksum::checksum_verifies(front, answer_header_back(from, to));
}

/// The IP header of an answer is read back: an IPv4 packet for UDP, as long as it says.
proof fn lemma_answer_header(
    from: Ipv4Addr,
    from_port: u16,
    to: Ipv4Addr,
    to_port: u16,
    message: Seq<u8>,
)
    requires
        message.len() <= MAX_ANSWER,
    ensures
        ({
            let p = answer_packet(from, from_port, to, to_port, message);
            &&& p.len() == 28 + message.len()
            &&& p[0] == 0x45
            &&& p[9] == 17
            &&& word_at(p, 2) == 28 + message.len()
            &&& p.subrange(12, 16) == from.octets_spec()
            &&& p.subrange(16, 20) == to.octets_spec()
        }),
{
    let p = answer_packet(from, from_port, to, to_port, message);
    let n = message.len();
    let c = internet_checksum(
        with_checksum(answer_header_front(n), 0, answer_header_back(from, to)),
    );
    crate::be::lemma_pow256_values();
    crate::be::be_round_trip((28 + n) as nat, 2);
    crate::be::lemma_be_bytes_len((8 + n) as nat, 2);
    crate::be::lemma_be_bytes_len(from_port as nat, 2);
    crate::be::lemma_be_bytes_len(to_port as nat, 2);
    crate::be::lemma_be_bytes_len(from.bits as nat, 4);
    crate::be::lemma_be_bytes_len(to.bits as nat, 4);
    crate::be::lemma_be_bytes_len(c as nat, 2);
    crate::be::lemma_be_value_two(be_bytes((28 + n) as nat, 2));
    assert(p[2] == be_bytes((28 + n) as nat, 2)[0] && p[3] == be_bytes((28 + n) as nat, 2)[1]);
    assert(p.subrange(12, 16) =~= from.octets_spec());
    assert(p.subrange(16, 20) =~= to.octets_spec());
}

/// The UDP part of an answer is read back: its ports, its length and the message.
proof fn lemma_answer_segment(
    from: Ipv4Addr,
    from_port: u16,
    to: Ipv4Addr,
    to_port: u16,
    message: Seq<u8>,
)
    requires
        message.len() <= MAX_ANSWER,
    ensures
        ({
            let p = answer_packet(from, from_port, to, to_port, message);
            let seg = p.subrange(20, p.len() as int);
            &&& p.len() == 28 + message.len()
            &&& seg.len() == 8 + message.len()
            &&& word_at(seg, 0) == from_port
            &&& word_at(seg, 2) == to_port
            &&& word_at(seg, 4) == 8 + message.len()
            &&& seg.subrange(8, seg.len() as int) == message
        }),
{
    let p = answer_packet(from, from_port, to, to_port, message);
    let n = message.len();
    lemma_answer_header(from, from_port, to, to_port, message);
    let seg = p.subrange(20, p.len() as int);
    crate::be::lemma_pow256_values();
    crate::be::be_round_trip((8 + n) as nat, 2);
    crate::be::be_round_trip(from_port as nat, 2);
    crate::be::be_round_trip(to_port as nat, 2);
    crate::be::lemma_be_value_two(be_bytes((8 + n) as nat, 2));
    crate::be::lemma_be_value_two(be_bytes(from_port as nat, 2));
    crate::be::lemma_be_value_two(be_bytes(to_port as nat, 2));
    lemma_answer_header_len(n, from, to);
    assert(seg[0] == be_bytes(from_port as nat, 2)[0] && seg[1] == be_bytes(
        from_port as nat,
        2,
    )[1]);
    assert(seg[2] == be_bytes(to_port as nat, 2)[0] && seg[3] == be_bytes(to_port as nat, 2)[1]);
    assert(seg[4] == be_bytes((8 + n) as nat, 2)[0] && seg[5] == be_bytes((8 + n) as nat, 2)[1]);
    assert(seg.subrange(8, seg.len() as int) =~= message);
}

proof fn lemma_answer_header_len(n: nat, from: Ipv4Addr, to: Ipv4Addr)
    ensures
        answer_header(n, from, to).len() == 20,
{
    let c = internet_checksum(
        with_checksum(answer_header_front(n), 0, answer_header_back(from, to)),
    );
    crate::be::lemma_be_bytes_len((28 + n) as nat, 2);
    crate::be::lemma_be_bytes_len(from.bits as nat, 4);
    crate::be::lemma_be_bytes_len(to.bits as nat, 4);
    crate::be::lemma_be_bytes_len(c as nat, 2);
}

/// What goes out as an answer is a UDP packet with the ports and addresses of the query turned
/// round, and its payload is the message.
#[verifier::spinoff_prover]
pub proof fn answer_packet_read_back(
    from: Ipv4Addr,
    from_port: u16,
    to: Ipv4Addr,
    to_port: u16,
    message: Seq<u8>,
)
    requires
        message.len() <= MAX_ANSWER,
    ensures
        packet_spec(answer_packet(from, from_port, to, to_port, message)) == (PacketView::Udp {
            src: SocketAddr { ip: IpAddr::V4(from), port: from_port },
            dst: SocketAddr { ip: IpAddr::V4(to), port: to_port },
            payload: message,
        }),
{
    let p = answer_packet(from, from_port, to, to_port, message);
    lemma_answer_header(from, from_port, to, to_port, message);
    lemma_answer_segment(from, from_port, to, to_port, message);
    crate::be::lemma_pow256_values();
    crate::be::be_round_trip(from.bits as nat, 4);
    crate::be::be_round_trip(to.bits as nat, 4);
    assert(p.subrange(20, word_at(p, 2)) =~= p.subrange(20, p.len() as int));
}

/// The first packet of a client opens a connection to where it was sent, where somebody takes new ones;
/// those that follow go to the same socket, whether or not.
pub proof fn connections_are_opened_once(
    t: &mut AddrMap<u8>,
    socket: u8,
    next: bool,
    later: bool,
    src: SocketAddr,
    dst: SocketAddr,
    first: TcpVerdict,
    second: TcpVerdict,
)
    requires
        t.wf(),
        !t@.contains_key(src),
        call_ensures(process_tcp::<u8>, (&*old(t), next, src, dst), first),
        call_ensures(AddrMap::<u8>::insert, (t, src, socket), ()),
        call_ensures(process_tcp::<u8>, (&*final(t), later, src, dst), second),
    ensures
        !next <==> first is Drop,
        next ==> (first matches TcpVerdict::Open(c) && c.local_peer == src && c.remote_peer@.host
            == crate::flow::HostView::Ip(dst.ip) && c.remote_peer@.port == dst.port
            && !c.af_sensitive && c.application_layer_protocol is None),
        second is Deliver,
{
}

/// The first datagram of a client opens a session from the client to where it was sent, where somebody
/// takes new ones; those that follow go there until it is gone, also while it is full.
pub proof fn datagrams_are_handed_on(
    t: &mut AddrMap<u8>,
    session: u8,
    next: bool,
    later: bool,
    src: SocketAddr,
    dst: SocketAddr,
    first: UdpVerdict,
    second: UdpVerdict,
    u: &mut AddrMap<u8>,
    delivery: Delivery,
    third: UdpVerdict,
)
    requires
        t.wf(),
        !t@.contains_key(src),
        call_ensures(forward_udp::<u8>, (&*old(t), next, src, dst), first),
        call_ensures(AddrMap::<u8>::insert, (t, src, session), ()),
        call_ensures(forward_udp::<u8>, (&*final(t), later, src, dst), second),
        *u == *final(t),
        call_ensures(after_delivery::<u8>, (u, src, delivery), ()),
        call_ensures(forward_udp::<u8>, (&*final(u), later, src, dst), third),
    ensures
        !next <==> first is Drop,
        next ==> (first matches UdpVerdict::Open(c) && c.local_peer == src && c.remote_peer@.host
            == crate::flow::HostView::Ip(dst.ip) && c.remote_peer@.port == dst.port
            && c.af_sensitive && c.application_layer_protocol is None),
        second is Deliver,
        third is Deliver <==> !(delivery is Gone),
{
}

/// What is no DNS query to port 53, or where queries are not to be answered here, is handed on, and no
/// fake address is given out for it.
pub proof fn other_datagrams_pass(
    hijack: bool,
    port: u16,
    payload: &[u8],
    f: &mut FakeIp,
    r: DnsStep,
)
    requires
        f.wf(),
        !hijack || port != 53 || dns_request(payload@) is None || dns_request(
            payload@,
        )->0.questions.len() == 0,
        call_ensures(hijack_dns, (hijack, port, payload, Some(f)), r),
    ensures
        r is Pass,
        *final(f) == *old(f),
{
}

/// A query for IPv6 addresses is refused, and no fake address is given out for it. It is never handed on.
pub proof fn ipv6_queries_are_refused(payload: &[u8], f: &mut FakeIp, r: DnsStep, req: DnsRequestView)
    requires
        f.wf(),
        dns_request(payload@) == Some(req),
        req.questions.len() > 0,
        req.questions[0].qtype == 28,
        call_ensures(hijack_dns, (true, 53u16, payload, Some(f)), r),
    ensures
        *final(f) == *old(f),
        dns_reply(payload@, refusal_of(req)) matches Some(m) ==> (r matches DnsStep::Reply {
            message,
            refused,
        } && message@ == m && refused),
        dns_reply(payload@, refusal_of(req)) is None ==> r is Discard,
{
}

/// Any other query is answered with the fake address of its name, and only that. Where that cannot be
/// encoded, it is handed on.
pub proof fn queries_are_answered(payload: &[u8], f: &mut FakeIp, r: DnsStep, req: DnsRequestView)
    requires
        f.wf(),
        dns_request(payload@) == Some(req),
        req.questions.len() > 0,
        req.questions[0].qtype != 28,
        call_ensures(hijack_dns, (true, 53u16, payload, Some(f)), r),
    ensures
        ({
            let ip = old(f).addr_v4(old(f).index_of(host_of(req)));
            match dns_reply(payload@, answer_of(req, seq![ip])) {
                Some(m) => r matches DnsStep::Reply { message, refused } && message@ == m
                    && !refused,
                None => r is Pass,
            }
        }),
        final(f).follows(*old(f), host_of(req)),
{
    let encode = |m: DnsReplyView| dns_reply(payload@, m);
    let ip = old(f).addr_v4(old(f).index_of(host_of(req)));
    assert(encode(answer_of(req, seq![ip])) == dns_reply(payload@, answer_of(req, seq![ip])));
}

/// An answer that is not too long reaches the client over IPv4: it is read as a datagram from where the
/// query was sent to where it came from, with the message, and its header passes the test on its checksum.
pub proof fn answers_reach_the_client(
    src: SocketAddr,
    dst: SocketAddr,
    message: &[u8],
    refused: bool,
    buffer: TunBufferToken,
    r: ReplyVerdict,
)
    requires
        src.ip is V4,
        dst.ip is V4,
        message@.len() <= 1472,
        buffer.data@.len() >= 28 + message@.len(),
        call_ensures(place_reply, (src, dst, message, refused, buffer), r),
    ensures
        r matches ReplyVerdict::Send { buffer: b, len } && b.signature == buffer.signature && len
            <= b.data@.len() && packet_spec(b.data@.subrange(0, len as int)) == (PacketView::Udp {
            src: dst,
            dst: src,
            payload: message@,
        }) && crate::checksum::fold(crate::checksum::word_sum(b.data@.subrange(0, 20))) == 0xffff,
{
    if let ReplyVerdict::Send { buffer: b, len } = r {
        answer_packet_read_back(dst.ip->V4_0, dst.port, src.ip->V4_0, src.port, message@);
        let p = answer_packet(dst.ip->V4_0, dst.port, src.ip->V4_0, src.port, message@);
        answer_header_verifies(message@.len(), dst.ip->V4_0, src.ip->V4_0);
        lemma_answer_header_len(message@.len(), dst.ip->V4_0, src.ip->V4_0);
        assert(b.data@.subrange(0, len as int) == p);
        assert forall|i: int| 0 <= i < 20 implies b.data@[i] == p[i] by {
            assert(b.data@.subrange(0, len as int)[i] == b.data@[i]);
        }
        assert(b.data@.subrange(0, 20) =~= answer_header(
            message@.len(),
            dst.ip->V4_0,
            src.ip->V4_0,
        ));
    }
}

/// An answer that cannot go out leaves the buffer as it was. Its query is handed on only where it was not
/// refused and the answer is not too long.
pub proof fn other_answers_stay(
    src: SocketAddr,
    dst: SocketAddr,
    message: &[u8],
    refused: bool,
    buffer: TunBufferToken,
    r: ReplyVerdict,
)
    requires
        src.ip is V6 || dst.ip is V6 || message@.len() > 1472,
        call_ensures(place_reply, (src, dst, message, refused, buffer), r),
    ensures
        r matches ReplyVerdict::GiveBack { buffer: b, forward } && b == buffer && (forward
            <==> message@.len() <= 1472 && !refused),
{
}

/// A datagram that is answered is not handed on, and one that is handed on is not answered: without a
/// buffer nothing is done, with one it is sent or goes back.
pub proof fn answered_or_handed_on(
    t: &AddrMap<u8>,
    next: bool,
    src: SocketAddr,
    dst: SocketAddr,
    message: &[u8],
    refused: bool,
    buffer: Option<TunBufferToken>,
    r: AnswerStep,
)
    requires
        buffer matches Some(b) ==> b.data@.len() >= 1500,
        call_ensures(answer_udp::<u8>, (t, next, src, dst, message, refused, buffer), r),
    ensures
        buffer is None <==> r is Nothing,
        r is Send <==> buffer is Some && src.ip is V4 && dst.ip is V4 && message@.len() <= 1472,
        r matches AnswerStep::Send { buffer: b, len } ==> len == 28 + message@.len() && len
            <= b.data@.len() && packet_spec(b.data@.subrange(0, len as int)) == (PacketView::Udp {
            src: dst,
            dst: src,
            payload: message@,
        }),
        r matches AnswerStep::GiveBack { buffer: b, forward } ==> buffer == Some(b) && (forward
            is Some <==> message@.len() <= 1472 && !refused) && (forward matches Some(v) ==> (v
            is Deliver <==> t@.contains_key(src)) && (v is Drop <==> !t@.contains_key(src)
            && !next)),
{
    if let AnswerStep::Send { buffer: b, len } = r {
        answer_packet_read_back(dst.ip->V4_0, dst.port, src.ip->V4_0, src.port, message@);
        let p = answer_packet(dst.ip->V4_0, dst.port, src.ip->V4_0, src.port, message@);
        lemma_answer_header(dst.ip->V4_0, dst.port, src.ip->V4_0, src.port, message@);
        assert(b.data@.subrange(0, len as int) =~= p);
    }
}

/// A poll is scheduled exactly where the stack asks for one sooner than the one that is, and at the time
/// that it asks for. One that was scheduled is wanted until its time has passed.
pub proof fn polls_come_in_time(
    now: i64,
    delay: Option<i64>,
    scheduled: i64,
    r: Option<i64>,
    then: i64,
    due: bool,
)
    requires
        delay matches Some(d) ==> i64::MIN <= now + d <= i64::MAX,
        call_ensures(next_poll, (now, delay, scheduled), r),
        call_ensures(poll_still_due, (then, scheduled), due),
    ensures
        r is Some <==> (delay matches Some(d) && now + d < scheduled),
        r matches Some(at) ==> at - now == delay->Some_0,
        due <==> then <= scheduled,
{
}

/// An answer that was encoded is sent. Where it was not, a refusal is dropped, and any other query is
/// handed on.
pub proof fn encoded_answers_are_sent(message: Option<Vec<u8>>, refused: bool, r: DnsStep)
    requires
        call_ensures(encoded_reply, (message, refused), r),
    ensures
        message is Some <==> r is Reply,
        message matches Some(m) ==> (r matches DnsStep::Reply { message: n, refused: f } && n@ == m@ && f
            == refused),
        message is None ==> (r is Discard <==> refused),
        message is None ==> (r is Pass <==> !refused),
{
}

/// An answer is a whole packet with a header of twenty bytes, of no service class, with no identifier, and
/// with room for 64 hops, and says that its UDP part has no checksum.
pub proof fn answers_are_plain_packets(
    from: Ipv4Addr,
    from_port: u16,
    to: Ipv4Addr,
    to_port: u16,
    message: Seq<u8>,
)
    requires
        message.len() <= 1472,
    ensures
        ({
            let p = answer_packet(from, from_port, to, to_port, message);
            &&& p[0] == 0x45 && p[1] == 0
            &&& p[4] == 0 && p[5] == 0 && p[6] == 0 && p[7] == 0
            &&& p[8] == 64
            &&& p[26] == 0 && p[27] == 0
        }),
{
    let n = message.len();
    crate::be::lemma_be_bytes_len((28 + n) as nat, 2);
    crate::be::lemma_be_bytes_len((8 + n) as nat, 2);
    crate::be::lemma_be_bytes_len(from_port as nat, 2);
    crate::be::lemma_be_bytes_len(to_port as nat, 2);
    let front = answer_header_front(n);
    let h = answer_header(n, from, to);
    lemma_answer_header_len(n, from, to);
    let p = answer_packet(from, from_port, to, to_port, message);
    assert(front.len() == 10);
    assert forall|i: int| 0 <= i < 10 implies p[i] == front[i] by {
        assert(h[i] == front[i]);
    }
    assert(front[0] == 0x45 && front[1] == 0 && front[4] == 0 && front[5] == 0 && front[6] == 0
        && front[7] == 0 && front[8] == 64);
}

} // verus!
