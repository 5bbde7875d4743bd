//! IP, TCP and UDP packets, from `smoltcp`.
use smoltcp::wire::IpAddress;
use smoltcp::wire::Ipv4Address;
use smoltcp::wire::Ipv4Packet;
use smoltcp::wire::Ipv6Address;
use smoltcp::wire::Ipv6Packet;
use smoltcp::wire::TcpPacket;
use smoltcp::wire::UdpPacket;
use vstd::prelude::*;

use crate::be::be_bytes;
use crate::be::be_value;
use crate::checksum::internet_checksum;
use crate::checksum::udp_checksum;

verus! {

/// What is read of the header of an IP packet. The payload stands from `start` to `end`.
pub struct IpFields {
    pub src: u128,
    pub dst: u128,
    pub protocol: u8,
    pub start: usize,
    pub end: usize,
}

pub struct TcpFields {
    pub src_port: u16,
    pub dst_port: u16,
    pub syn: bool,
}

/// What is read of the header of a UDP segment. The payload stands behind the eight bytes of the
/// header, and the segment ends at `end`.
pub struct UdpFields {
    pub src_port: u16,
    pub dst_port: u16,
    pub end: usize,
}

/// The number in the two bytes at `at`.
pub open spec fn word_at(b: Seq<u8>, at: int) -> int {
    b[at] * 256 + b[at + 1]
}

/// The header length that an IPv4 packet claims.
pub open spec fn ipv4_header_len(b: Seq<u8>) -> int {
    (b[0] % 16) * 4
}

/// Whether the lengths in an IPv4 header fit the packet.
pub open spec fn ipv4_fits(b: Seq<u8>) -> bool {
    b.len() >= 20 && ipv4_header_len(b) <= word_at(b, 2) <= b.len()
}

/// Whether the length in an IPv6 header fits the packet.
pub open spec fn ipv6_fits(b: Seq<u8>) -> bool {
    b.len() >= 40 && 40 + word_at(b, 4) <= b.len()
}

/// Whether the header length in a TCP header fits the segment.
pub open spec fn tcp_fits(b: Seq<u8>) -> bool {
    b.len() >= 20 && 20 <= (b[12] / 16) * 4 <= b.len()
}

/// Whether the length in a UDP header fits the segment.
pub open spec fn udp_fits(b: Seq<u8>) -> bool {
    b.len() >= 8 && 8 <= word_at(b, 4) <= b.len()
}

/// Calls `Ipv4Packet::new_checked`, which tests the lengths in the header, and reads the addresses,
/// the protocol and the place of the payload.
#[verifier::external_body]
pub(crate) fn read_ipv4(b: &[u8]) -> (r: Option<IpFields>)
    ensures
        r is Some <==> ipv4_fits(b@),
        r matches Some(f) ==> f.src == be_value(b@.subrange(12, 16)) && f.dst == be_value(
            b@.subrange(16, 20),
        ) && f.protocol == b@[9] && f.start == ipv4_header_len(b@) && f.end == word_at(b@, 2),
{
    let p = Ipv4Packet::new_checked(b).ok()?;
    Some(IpFields {
        src: u32::from_be_bytes(p.src_addr().0).into(),
        dst: u32::from_be_bytes(p.dst_addr().0).into(),
        protocol: p.next_header().into(),
        start: p.header_len().into(),
        end: p.total_len().into(),
    })
}

/// Calls `Ipv6Packet::new_checked`, which tests the length in the header, and reads the addresses,
/// the next header and the place of the payload.
#[verifier::external_body]
pub(crate) fn read_ipv6(b: &[u8]) -> (r: Option<IpFields>)
    ensures
        r is Some <==> ipv6_fits(b@),
        r matches Some(f) ==> f.src == be_value(b@.subrange(8, 24)) && f.dst == be_value(
            b@.subrange(24, 40),
        ) && f.protocol == b@[6] && f.start == 40 && f.end == 40 + word_at(b@, 4),
{
    let p = Ipv6Packet::new_checked(b).ok()?;
    Some(IpFields {
        src: u128::from_be_bytes(p.src_addr().0),
        dst: u128::from_be_bytes(p.dst_addr().0),
        protocol: p.next_header().into(),
        start: p.header_len(),
        end: p.total_len(),
    })
}

/// Calls `TcpPacket::new_checked`, which tests the header length, and reads the ports and the SYN
/// flag.
#[verifier::external_body]
pub(crate) fn read_tcp(b: &[u8]) -> (r: Option<TcpFields>)
    ensures
        r is Some <==> tcp_fits(b@),
        r matches Some(f) ==> f.src_port == word_at(b@, 0) && f.dst_port == word_at(b@, 2) && f.syn
            == ((b@[13] / 2) % 2 == 1),
{
    let p = TcpPacket::new_checked(b).ok()?;
    Some(TcpFields { src_port: p.src_port(), dst_port: p.dst_port(), syn: p.syn() })
}

/// Calls `UdpPacket::new_checked`, which tests the length, and reads the ports and the length.
#[verifier::external_body]
pub(crate) fn read_udp(b: &[u8]) -> (r: Option<UdpFields>)
    ensures
        r is Some <==> udp_fits(b@),
        r matches Some(f) ==> f.src_port == word_at(b@, 0) && f.dst_port == word_at(b@, 2) && f.end
            == word_at(b@, 4),
{
    let p = UdpPacket::new_checked(b).ok()?;
    Some(UdpFields { src_port: p.src_port(), dst_port: p.dst_port(), end: p.len().into() })
}

/// Calls `Ipv4Packet::fill_checksum`: the checksum of the header, computed with a zero in its
/// place, is written into the header.
#[verifier::external_body]
pub(crate) fn fill_ipv4_checksum(header: &mut Vec<u8>)
    requires
        old(header)@.len() == 20,
        old(header)@[0] == 0x45,
    ensures
        ({
            let zero = old(header)@.update(10, 0).update(11, 0);
            let c = be_bytes(internet_checksum(zero) as nat, 2);
            final(header)@ == zero.update(10, c[0]).update(11, c[1])
        }),
{
    Ipv4Packet::new_unchecked(header.as_mut_slice()).fill_checksum();
}

/// Calls `UdpPacket::fill_checksum` for two IPv4 addresses: the checksum of the segment and its
/// pseudo header, computed with a zero in its place, is written into the segment.
#[verifier::external_body]
pub(crate) fn fill_udp_checksum_v4(segment: &mut Vec<u8>, src: crate::net::Ipv4Addr, dst: crate::net::Ipv4Addr)
    requires
        8 <= old(segment)@.len() <= 0xffff,
        word_at(old(segment)@, 4) == old(segment)@.len(),
    ensures
        ({
            let zero = old(segment)@.update(6, 0).update(7, 0);
            let c = be_bytes(udp_checksum(src.octets_spec(), dst.octets_spec(), zero) as nat, 2);
            final(segment)@ == zero.update(6, c[0]).update(7, c[1])
        }),
{
    let src = IpAddress::Ipv4(Ipv4Address(src.bits.to_be_bytes()));
    let dst = IpAddress::Ipv4(Ipv4Address(dst.bits.to_be_bytes()));
    UdpPacket::new_unchecked(segment.as_mut_slice()).fill_checksum(&src, &dst);
}

/// Calls `UdpPacket::fill_checksum` for two IPv6 addresses: the checksum of the segment and its
/// pseudo header, computed with a zero in its place, is written into the segment.
#[verifier::external_body]
pub(crate) fn fill_udp_checksum_v6(segment: &mut Vec<u8>, src: crate::net::Ipv6Addr, dst: crate::net::Ipv6Addr)
    requires
        8 <= old(segment)@.len() <= 0xffff,
        word_at(old(segment)@, 4) == old(segment)@.len(),
    ensures
        ({
            let zero = old(segment)@.update(6, 0).update(7, 0);
            let c = be_bytes(udp_checksum(src.octets_spec(), dst.octets_spec(), zero) as nat, 2);
            final(segment)@ == zero.update(6, c[0]).update(7, c[1])
        }),
{
    let src = IpAddress::Ipv6(Ipv6Address(src.bits.to_be_bytes()));
    let dst = IpAddress::Ipv6(Ipv6Address(dst.bits.to_be_bytes()));
    UdpPacket::new_unchecked(segment.as_mut_slice()).fill_checksum(&src, &dst);
}

} // verus!
