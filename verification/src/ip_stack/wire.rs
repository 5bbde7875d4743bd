//! What packets look like on the wire, and that the stack reads them as what they are.
use vstd::prelude::*;

use crate::be::be_bytes;
use crate::deps::packet::word_at;
use crate::ip_stack::packet_spec;
use crate::ip_stack::transport_spec;
use crate::ip_stack::PacketView;
use crate::net::IpAddr;
use crate::net::Ipv4Addr;
use crate::net::Ipv6Addr;
use crate::net::SocketAddr;

verus! {

/// Whether options fill whole words, and no more of them than a header has room for.
pub open spec fn options_fit(options: Seq<u8>) -> bool {
    options.len() % 4 == 0 && options.len() <= 40
}

/// An IPv4 packet, with `padding` behind it. `middle` is what stands between the length and the time
/// to live.
pub open spec fn ipv4_packet(
    class: u8,
    middle: Seq<u8>,
    ttl: u8,
    protocol: u8,
    checksum: Seq<u8>,
    src: Ipv4Addr,
    dst: Ipv4Addr,
    options: Seq<u8>,
    payload: Seq<u8>,
    padding: Seq<u8>,
) -> Seq<u8> {
    seq![(0x45 + options.len() / 4) as u8, class] + be_bytes(
        (20 + options.len() + payload.len()) as nat,
        2,
    ) + middle + seq![ttl, protocol] + checksum + src.octets_spec() + dst.octets_spec() + options
        + payload + padding
}

/// An IPv6 packet, with `padding` behind it. `label` is what stands between the first byte and the
/// length.
pub open spec fn ipv6_packet(
    class: u8,
    label: Seq<u8>,
    next_header: u8,
    hops: u8,
    src: Ipv6Addr,
    dst: Ipv6Addr,
    payload: Seq<u8>,
    padding: Seq<u8>,
) -> Seq<u8> {
    seq![(0x60 + class % 16) as u8] + label + be_bytes(payload.len(), 2) + seq![next_header, hops]
        + src.octets_spec() + dst.octets_spec() + payload + padding
}

/// A TCP segment. `numbers` are the sequence and acknowledgment numbers, `tail` the window, the
/// checksum and the urgent pointer.
pub open spec fn tcp_segment(
    src_port: u16,
    dst_port: u16,
    numbers: Seq<u8>,
    reserved: u8,
    flags: u8,
    tail: Seq<u8>,
    options: Seq<u8>,
    data: Seq<u8>,
) -> Seq<u8> {
    be_bytes(src_port as nat, 2) + be_bytes(dst_port as nat, 2) + numbers + seq![
        ((5 + options.len() / 4) * 16 + reserved % 16) as u8,
        flags,
    ] + tail + options + data
}

/// A UDP segment, with `padding` behind it.
pub open spec fn udp_segment(
    src_port: u16,
    dst_port: u16,
    checksum: Seq<u8>,
    payload: Seq<u8>,
    padding: Seq<u8>,
) -> Seq<u8> {
    be_bytes(src_port as nat, 2) + be_bytes(dst_port as nat, 2) + be_bytes(
        (8 + payload.len()) as nat,
        2,
    ) + checksum + payload + padding
}

proof fn lemma_word(v: nat)
    requires
        v <= 0xffff,
    ensures
        be_bytes(v, 2).len() == 2,
        be_bytes(v, 2)[0] * 256 + be_bytes(v, 2)[1] == v,
{
    crate::be::lemma_pow256_values();
    crate::be::be_round_trip(v, 2);
    crate::be::lemma_be_value_two(be_bytes(v, 2));
}

proof fn lemma_ipv4_payload(
    class: u8,
    middle: Seq<u8>,
    ttl: u8,
    protocol: u8,
    checksum: Seq<u8>,
    src: Ipv4Addr,
    dst: Ipv4Addr,
    options: Seq<u8>,
    payload: Seq<u8>,
    padding: Seq<u8>,
)
    requires
        middle.len() == 4,
        checksum.len() == 2,
        options_fit(options),
        20 + options.len() + payload.len() <= 0xffff,
    ensures
        packet_spec(
            ipv4_packet(
                class,
                middle,
                ttl,
                protocol,
                checksum,
                src,
                dst,
                options,
                payload,
                padding,
            ),
        ) == transport_spec(IpAddr::V4(src), IpAddr::V4(dst), protocol, payload),
{
    let b = ipv4_packet(
        class,
        middle,
        ttl,
        protocol,
        checksum,
        src,
        dst,
        options,
        payload,
        padding,
    );
    let n = (20 + options.len() + payload.len()) as nat;
    let k = (options.len() / 4) as int;
    lemma_word(n);
    crate::be::lemma_pow256_values();
    crate::be::be_round_trip(src.bits as nat, 4);
    crate::be::be_round_trip(dst.bits as nat, 4);
    assert(b[0] == 0x45 + k && b[2] == be_bytes(n, 2)[0] && b[3] == be_bytes(n, 2)[1]);
    assert(b[9] == protocol);
    assert(b.subrange(12, 16) =~= src.octets_spec());
    assert(b.subrange(16, 20) =~= dst.octets_spec());
    assert(b[0] / 16 == 4 && b[0] % 16 == 5 + k);
    assert((b[0] % 16) * 4 == 20 + options.len());
    assert(b.subrange(20 + options.len() as int, n as int) =~= payload);
}

proof fn lemma_ipv6_payload(
    class: u8,
    label: Seq<u8>,
    next_header: u8,
    hops: u8,
    src: Ipv6Addr,
    dst: Ipv6Addr,
    payload: Seq<u8>,
    padding: Seq<u8>,
)
    requires
        label.len() == 3,
        payload.len() <= 0xffff,
    ensures
        packet_spec(
            ipv6_packet(class, label, next_header, hops, src, dst, payload, padding),
        ) == transport_spec(IpAddr::V6(src), IpAddr::V6(dst), next_header, payload),
{
    let b = ipv6_packet(class, label, next_header, hops, src, dst, payload, padding);
    let n = payload.len();
    lemma_word(n);
    crate::be::lemma_pow256_values();
    crate::be::be_round_trip(src.bits as nat, 16);
    crate::be::be_round_trip(dst.bits as nat, 16);
    assert(b[0] / 16 == 6);
    assert(b[4] == be_bytes(n, 2)[0] && b[5] == be_bytes(n, 2)[1] && b[6] == next_header);
    assert(b.subrange(8, 24) =~= src.octets_spec());
    assert(b.subrange(24, 40) =~= dst.octets_spec());
    assert(b.subrange(40, 40 + n as int) =~= payload);
}

proof fn lemma_tcp_segment(
    src: IpAddr,
    dst: IpAddr,
    src_port: u16,
    dst_port: u16,
    numbers: Seq<u8>,
    reserved: u8,
    flags: u8,
    tail: Seq<u8>,
    options: Seq<u8>,
    data: Seq<u8>,
)
    requires
        numbers.len() == 8,
        tail.len() == 6,
        options_fit(options),
    ensures
        transport_spec(
            src,
            dst,
            6,
            tcp_segment(src_port, dst_port, numbers, reserved, flags, tail, options, data),
        ) == (PacketView::Tcp {
            src: SocketAddr { ip: src, port: src_port },
            dst: SocketAddr { ip: dst, port: dst_port },
            syn: flags & 2 != 0,
        }),
        tcp_segment(src_port, dst_port, numbers, reserved, flags, tail, options, data).len() == 20
            + options.len() + data.len(),
{
    let s = tcp_segment(src_port, dst_port, numbers, reserved, flags, tail, options, data);
    let k = (options.len() / 4) as int;
    lemma_word(src_port as nat);
    lemma_word(dst_port as nat);
    assert(s[0] == be_bytes(src_port as nat, 2)[0] && s[1] == be_bytes(src_port as nat, 2)[1]);
    assert(s[2] == be_bytes(dst_port as nat, 2)[0] && s[3] == be_bytes(dst_port as nat, 2)[1]);
    assert(s[12] == (5 + k) * 16 + reserved % 16);
    assert(s[12] / 16 == 5 + k);
    assert(s[13] == flags);
    assert((flags & 2 != 0) == ((flags / 2) % 2 == 1)) by (bit_vector);
}

proof fn lemma_udp_segment(
    src: IpAddr,
    dst: IpAddr,
    src_port: u16,
    dst_port: u16,
    checksum: Seq<u8>,
    payload: Seq<u8>,
    padding: Seq<u8>,
)
    requires
        checksum.len() == 2,
        8 + payload.len() <= 0xffff,
    ensures
        transport_spec(
            src,
            dst,
            17,
            udp_segment(src_port, dst_port, checksum, payload, padding),
        ) == (PacketView::Udp {
            src: SocketAddr { ip: src, port: src_port },
            dst: SocketAddr { ip: dst, port: dst_port },
            payload,
        }),
{
    let s = udp_segment(src_port, dst_port, checksum, payload, padding);
    let n = (8 + payload.len()) as nat;
    lemma_word(src_port as nat);
    lemma_word(dst_port as nat);
    lemma_word(n);
    assert(s[0] == be_bytes(src_port as nat, 2)[0] && s[1] == be_bytes(src_port as nat, 2)[1]);
    assert(s[2] == be_bytes(dst_port as nat, 2)[0] && s[3] == be_bytes(dst_port as nat, 2)[1]);
    assert(s[4] == be_bytes(n, 2)[0] && s[5] == be_bytes(n, 2)[1]);
    assert(s.subrange(8, n as int) =~= payload);
}

// ---- Laws ----
/// A TCP segment in an IPv4 packet is read with its addresses, its ports and its SYN flag, whatever
/// the other fields, the options and the data are, and whatever is behind the packet.
pub proof fn tcp_over_ipv4_is_read(
    class: u8,
    middle: Seq<u8>,
    ttl: u8,
    checksum: Seq<u8>,
    src: Ipv4Addr,
    dst: Ipv4Addr,
    ip_options: Seq<u8>,
    padding: Seq<u8>,
    src_port: u16,
    dst_port: u16,
    numbers: Seq<u8>,
    reserved: u8,
    flags: u8,
    tail: Seq<u8>,
    options: Seq<u8>,
    data: Seq<u8>,
)
    requires
        middle.len() == 4,
        checksum.len() == 2,
        options_fit(ip_options),
        numbers.len() == 8,
        tail.len() == 6,
        options_fit(options),
        40 + ip_options.len() + options.len() + data.len() <= 0xffff,
    ensures
        packet_spec(
            ipv4_packet(
                class,
                middle,
                ttl,
                6,
                checksum,
                src,
                dst,
                ip_options,
                tcp_segment(src_port, dst_port, numbers, reserved, flags, tail, options, data),
                padding,
            ),
        ) == (PacketView::Tcp {
            src: SocketAddr { ip: IpAddr::V4(src), port: src_port },
            dst: SocketAddr { ip: IpAddr::V4(dst), port: dst_port },
            syn: flags & 2 != 0,
        }),
{
    let s = tcp_segment(src_port, dst_port, numbers, reserved, flags, tail, options, data);
    lemma_tcp_segment(
        IpAddr::V4(src),
        IpAddr::V4(dst),
        src_port,
        dst_port,
        numbers,
        reserved,
        flags,
        tail,
        options,
        data,
    );
    lemma_ipv4_payload(class, middle, ttl, 6, checksum, src, dst, ip_options, s, padding);
}

/// A TCP segment in an IPv6 packet is read with its addresses, its ports and its SYN flag, whatever
/// the other fields, the options and the data are, and whatever is behind the packet.
pub proof fn tcp_over_ipv6_is_read(
    class: u8,
    label: Seq<u8>,
    hops: u8,
    src: Ipv6Addr,
    dst: Ipv6Addr,
    padding: Seq<u8>,
    src_port: u16,
    dst_port: u16,
    numbers: Seq<u8>,
    reserved: u8,
    flags: u8,
    tail: Seq<u8>,
    options: Seq<u8>,
    data: Seq<u8>,
)
    requires
        label.len() == 3,
        numbers.len() == 8,
        tail.len() == 6,
        options_fit(options),
        20 + options.len() + data.len() <= 0xffff,
    ensures
        packet_spec(
            ipv6_packet(
                class,
                label,
                6,
                hops,
                src,
                dst,
                tcp_segment(src_port, dst_port, numbers, reserved, flags, tail, options, data),
                padding,
            ),
        ) == (PacketView::Tcp {
            src: SocketAddr { ip: IpAddr::V6(src), port: src_port },
            dst: SocketAddr { ip: IpAddr::V6(dst), port: dst_port },
            syn: flags & 2 != 0,
        }),
{
    let s = tcp_segment(src_port, dst_port, numbers, reserved, flags, tail, options, data);
    lemma_tcp_segment(
        IpAddr::V6(src),
        IpAddr::V6(dst),
        src_port,
        dst_port,
        numbers,
        reserved,
        flags,
        tail,
        options,
        data,
    );
    lemma_ipv6_payload(class, label, 6, hops, src, dst, s, padding);
}

/// A UDP segment in an IPv4 packet is read with its addresses, its ports and exactly its payload.
pub proof fn udp_over_ipv4_is_read(
    class: u8,
    middle: Seq<u8>,
    ttl: u8,
    checksum: Seq<u8>,
    src: Ipv4Addr,
    dst: Ipv4Addr,
    ip_options: Seq<u8>,
    padding: Seq<u8>,
    src_port: u16,
    dst_port: u16,
    udp_checksum: Seq<u8>,
    payload: Seq<u8>,
    udp_padding: Seq<u8>,
)
    requires
        middle.len() == 4,
        checksum.len() == 2,
        options_fit(ip_options),
        udp_checksum.len() == 2,
        28 + ip_options.len() + payload.len() + udp_padding.len() <= 0xffff,
    ensures
        packet_spec(
            ipv4_packet(
                class,
                middle,
                ttl,
                17,
                checksum,
                src,
                dst,
                ip_options,
                udp_segment(src_port, dst_port, udp_checksum, payload, udp_padding),
                padding,
            ),
        ) == (PacketView::Udp {
            src: SocketAddr { ip: IpAddr::V4(src), port: src_port },
            dst: SocketAddr { ip: IpAddr::V4(dst), port: dst_port },
            payload,
        }),
{
    let s = udp_segment(src_port, dst_port, udp_checksum, payload, udp_padding);
    crate::be::lemma_be_bytes_len(src_port as nat, 2);
    crate::be::lemma_be_bytes_len(dst_port as nat, 2);
    crate::be::lemma_be_bytes_len((8 + payload.len()) as nat, 2);
    lemma_udp_segment(
        IpAddr::V4(src),
        IpAddr::V4(dst),
        src_port,
        dst_port,
        udp_checksum,
        payload,
        udp_padding,
    );
    lemma_ipv4_payload(class, middle, ttl, 17, checksum, src, dst, ip_options, s, padding);
}

/// A UDP segment in an IPv6 packet is read with its addresses, its ports and exactly its payload.
pub proof fn udp_over_ipv6_is_read(
    class: u8,
    label: Seq<u8>,
    hops: u8,
    src: Ipv6Addr,
    dst: Ipv6Addr,
    padding: Seq<u8>,
    src_port: u16,
    dst_port: u16,
    udp_checksum: Seq<u8>,
    payload: Seq<u8>,
    udp_padding: Seq<u8>,
)
    requires
        label.len() == 3,
        udp_checksum.len() == 2,
        8 + payload.len() + udp_padding.len() <= 0xffff,
    ensures
        packet_spec(
            ipv6_packet(
                class,
                label,
                17,
                hops,
                src,
                dst,
                udp_segment(src_port, dst_port, udp_checksum, payload, udp_padding),
                padding,
            ),
        ) == (PacketView::Udp {
            src: SocketAddr { ip: IpAddr::V6(src), port: src_port },
            dst: SocketAddr { ip: IpAddr::V6(dst), port: dst_port },
            payload,
        }),
{
    let s = udp_segment(src_port, dst_port, udp_checksum, payload, udp_padding);
    crate::be::lemma_be_bytes_len(src_port as nat, 2);
    crate::be::lemma_be_bytes_len(dst_port as nat, 2);
    crate::be::lemma_be_bytes_len((8 + payload.len()) as nat, 2);
    lemma_udp_segment(
        IpAddr::V6(src),
        IpAddr::V6(dst),
        src_port,
        dst_port,
        udp_checksum,
        payload,
        udp_padding,
    );
    lemma_ipv6_payload(class, label, 17, hops, src, dst, s, padding);
}

/// What carries neither TCP nor UDP is left alone, and so is what is no IP packet or is cut off.
pub proof fn the_rest_is_ignored(b: Seq<u8>)
    requires
        ({
            ||| b.len() < 20
            ||| b[0] / 16 != 4 && b[0] / 16 != 6
            ||| b[0] / 16 == 4 && (b[9] != 6 && b[9] != 17 || word_at(b, 2) > b.len())
            ||| b[0] / 16 == 6 && (b[6] != 6 && b[6] != 17 || 40 + word_at(b, 4) > b.len())
        }),
    ensures
        packet_spec(b) is Ignored,
{
}

} // verus!
