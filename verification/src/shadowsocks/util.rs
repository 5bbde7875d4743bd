//! Destination addresses on the wire: a type byte, the address and the port.
use vstd::prelude::*;
use vstd::slice::slice_subrange;
use vstd::utf8::decode_utf8;
use vstd::utf8::encode_utf8;
use vstd::utf8::valid_utf8;

use crate::be::be_bytes;
use crate::be::be_value;
use crate::be::push_be;
use crate::be::read_be16;
use crate::flow::DestView;
use crate::flow::DestinationAddr;
use crate::flow::HostName;
use crate::flow::HostView;
use crate::net::IpAddr;
use crate::net::Ipv4Addr;
use crate::net::Ipv6Addr;
use crate::text::str_from_utf8;

verus! {

/// The port in two bytes at `at`.
pub open spec fn port_at(b: Seq<u8>, at: int) -> u16 {
    (b[at] * 256 + b[at + 1]) as u16
}

/// The destination that `b` begins with, and how many bytes it takes.
pub open spec fn parse_dest_spec(b: Seq<u8>) -> Option<(DestView, int)> {
    if b.len() == 0 {
        None
    } else if b[0] == 1 && b.len() >= 7 {
        let ip = Ipv4Addr { bits: be_value(b.subrange(1, 5)) as u32 };
        Some((DestView { host: HostView::Ip(IpAddr::V4(ip)), port: port_at(b, 5) }, 7))
    } else if b[0] == 4 && b.len() >= 19 {
        let ip = Ipv6Addr { bits: be_value(b.subrange(1, 17)) as u128 };
        Some((DestView { host: HostView::Ip(IpAddr::V6(ip)), port: port_at(b, 17) }, 19))
    } else if b[0] == 3 && b.len() >= 2 && b.len() >= b[1] + 4 && valid_utf8(
        b.subrange(2, 2 + b[1]),
    ) {
        let name = decode_utf8(b.subrange(2, 2 + b[1]));
        Some((DestView { host: HostView::DomainName(name), port: port_at(b, 2 + b[1]) }, b[1] + 4))
    } else {
        None
    }
}

/// The bytes of a destination. The length of a name is written in one byte.
pub open spec fn dest_bytes(d: DestView) -> Seq<u8> {
    let port = be_bytes(d.port as nat, 2);
    match d.host {
        HostView::Ip(IpAddr::V4(ip)) => seq![1u8] + ip.octets_spec() + port,
        HostView::Ip(IpAddr::V6(ip)) => seq![4u8] + ip.octets_spec() + port,
        HostView::DomainName(name) => {
            let b = encode_utf8(name);
            seq![3u8, b.len() as u8] + b + port
        },
    }
}

/// Whether the name in `d`, if it has one, is short enough for its length byte.
pub open spec fn dest_fits(d: DestView) -> bool {
    d.host is DomainName ==> encode_utf8(d.host->DomainName_0).len() <= 255
}

/// Reads the destination that `b` begins with. `None` unless all of it is there.
pub fn parse_dest(b: &[u8]) -> (r: Option<(DestinationAddr, usize)>)
    ensures
        match r {
            Some((d, n)) => parse_dest_spec(b@) == Some((d@, n as int)) && n <= b@.len(),
            None => parse_dest_spec(b@) is None,
        },
{
    if b.len() == 0 {
        return None;
    }
    if b[0] == 1 && b.len() >= 7 {
        let ip = Ipv4Addr::read(b, 1);
        let port: u16 = read_be16(b, 5);
        return Some((DestinationAddr { host: HostName::Ip(IpAddr::V4(ip)), port }, 7));
    }
    if b[0] == 4 && b.len() >= 19 {
        let ip = Ipv6Addr::read(b, 1);
        let port: u16 = read_be16(b, 17);
        return Some((DestinationAddr { host: HostName::Ip(IpAddr::V6(ip)), port }, 19));
    }
    if b[0] == 3 && b.len() >= 2 && b.len() >= b[1] as usize + 4 {
        let n: usize = b[1] as usize;
        let name = slice_subrange(b, 2, 2 + n);
        return match str_from_utf8(name) {
            Some(t) => {
                let port: u16 = read_be16(b, 2 + n);
                Some((DestinationAddr { host: HostName::DomainName(t.to_owned()), port }, n + 4))
            },
            None => None,
        };
    }
    None
}

/// Appends a destination.
pub fn write_dest(out: &mut Vec<u8>, dest: &DestinationAddr)
    ensures
        final(out)@ == old(out)@ + dest_bytes(dest@),
{
    match &dest.host {
        HostName::Ip(IpAddr::V4(ip)) => {
            out.push(1);
            push_be(out, ip.bits as u128, 4);
        },
        HostName::Ip(IpAddr::V6(ip)) => {
            out.push(4);
            push_be(out, ip.bits, 16);
        },
        HostName::DomainName(name) => {
            let b = name.as_str().as_bytes();
            out.push(3);
            let n: u8 = #[verifier::truncate] (b.len() as u8);
            out.push(n);
            out.extend_from_slice(b);
        },
    }
    push_be(out, dest.port as u128, 2);
    assert(out@ =~= old(out)@ + dest_bytes(dest@));
}

/// What is written of a destination is read back as that destination, whatever follows it.
pub proof fn dest_round_trip(d: DestView, rest: Seq<u8>)
    requires
        dest_fits(d),
    ensures
        parse_dest_spec(dest_bytes(d) + rest) == Some((d, dest_bytes(d).len() as int)),
{
    let b = dest_bytes(d) + rest;
    crate::be::lemma_pow256_values();
    crate::be::be_round_trip(d.port as nat, 2);
    let port = be_bytes(d.port as nat, 2);
    crate::be::lemma_be_value_two(port);
    match d.host {
        HostView::Ip(IpAddr::V4(ip)) => {
            crate::be::be_round_trip(ip.bits as nat, 4);
            assert(b.subrange(1, 5) =~= ip.octets_spec());
            assert(b[5] == port[0] && b[6] == port[1]);
        },
        HostView::Ip(IpAddr::V6(ip)) => {
            crate::be::be_round_trip(ip.bits as nat, 16);
            assert(b.subrange(1, 17) =~= ip.octets_spec());
            assert(b[17] == port[0] && b[18] == port[1]);
        },
        HostView::DomainName(name) => {
            let t = encode_utf8(name);
            vstd::utf8::encode_utf8_valid_utf8(name);
            vstd::utf8::encode_utf8_decode_utf8(name);
            assert(b.subrange(2, 2 + b[1]) =~= t);
            assert(b[t.len() as int + 2] == port[0] && b[t.len() as int + 3] == port[1]);
        },
    }
}

/// An IPv4 destination on the wire: the type, the four octets and the port, high byte first.
pub proof fn ipv4_destinations_on_the_wire(a: u8, b: u8, c: u8, d: u8, port: u16)
    ensures
        dest_bytes(
            DestView {
                host: HostView::Ip(
                    IpAddr::V4(
                        Ipv4Addr {
                            bits: (a * 0x1_00_00_00 + b * 0x1_00_00 + c * 0x1_00 + d) as u32,
                        },
                    ),
                ),
                port,
            },
        ) == seq![1u8, a, b, c, d, (port / 256) as u8, (port % 256) as u8],
{
    let bits = (a * 0x1_00_00_00 + b * 0x1_00_00 + c * 0x1_00 + d) as nat;
    reveal_with_fuel(be_bytes, 5);
    assert(be_bytes(bits, 4) =~= seq![a, b, c, d]);
    crate::be::lemma_be_bytes_two(port as nat);
    assert(seq![1u8] + seq![a, b, c, d] + seq![(port / 256) as u8, (port % 256) as u8] =~= seq![
        1u8,
        a,
        b,
        c,
        d,
        (port / 256) as u8,
        (port % 256) as u8,
    ]);
}

/// A destination on the wire begins with its type: 1 for IPv4, 3 for a name, 4 for IPv6. A name has
/// its length in front, and the port comes last.
pub proof fn destinations_on_the_wire(d: DestView)
    requires
        dest_fits(d),
    ensures
        ({
            let b = dest_bytes(d);
            let n = b.len() as int;
            let port = seq![(d.port / 256) as u8, (d.port % 256) as u8];
            &&& n >= 4 && b.subrange(n - 2, n) == port
            &&& match d.host {
                HostView::Ip(IpAddr::V4(ip)) => n == 7 && b[0] == 1 && be_value(
                    b.subrange(1, 5),
                ) == ip.bits,
                HostView::Ip(IpAddr::V6(ip)) => n == 19 && b[0] == 4 && be_value(
                    b.subrange(1, 17),
                ) == ip.bits,
                HostView::DomainName(name) => b[0] == 3 && n == b[1] + 4 && b.subrange(2, n - 2)
                    == encode_utf8(name),
            }
        }),
{
    let b = dest_bytes(d);
    let n = b.len() as int;
    crate::be::lemma_be_bytes_two(d.port as nat);
    crate::be::lemma_pow256_values();
    match d.host {
        HostView::Ip(IpAddr::V4(ip)) => {
            crate::be::be_round_trip(ip.bits as nat, 4);
            assert(b.subrange(1, 5) =~= be_bytes(ip.bits as nat, 4));
        },
        HostView::Ip(IpAddr::V6(ip)) => {
            crate::be::be_round_trip(ip.bits as nat, 16);
            assert(b.subrange(1, 17) =~= be_bytes(ip.bits as nat, 16));
        },
        HostView::DomainName(name) => {
            assert(b.subrange(2, n - 2) =~= encode_utf8(name));
        },
    }
    assert(b.subrange(n - 2, n) =~= be_bytes(d.port as nat, 2));
}

/// A destination is read only where all of it is there, and its type is known.
pub proof fn unfinished_destinations_are_not_read(d: DestView, n: int)
    requires
        dest_fits(d),
        0 <= n < dest_bytes(d).len(),
    ensures
        parse_dest_spec(dest_bytes(d).take(n)) is None,
{
    let b = dest_bytes(d);
    destinations_on_the_wire(d);
    if n > 0 {
        assert(b.take(n)[0] == b[0]);
        if n > 1 {
            assert(b.take(n)[1] == b[1]);
        }
    }
}

/// A destination of an unknown type is not read, nor is one whose name is no text.
pub proof fn unknown_destinations_are_not_read(b: &[u8], r: Option<(DestinationAddr, usize)>)
    requires
        call_ensures(parse_dest, (b,), r),
        b@.len() == 0 || (b@[0] != 1 && b@[0] != 3 && b@[0] != 4) || (b@[0] == 3 && b@.len() >= 2
            && b@.len() >= b@[1] + 4 && !valid_utf8(b@.subrange(2, 2 + b@[1]))),
    ensures
        r is None,
{
}

} // verus!
