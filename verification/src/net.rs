//! Network addresses as plain values.
use vstd::prelude::*;

use crate::be::be_bytes;
use crate::be::be_value;
use crate::be::push_be;
use crate::be::read_be;

verus! {

/// An IPv4 address: its four octets as one big-endian number.
#[derive(Clone, Copy, PartialEq, Eq, Structural, Debug, Hash, PartialOrd, Ord)]
pub struct Ipv4Addr {
    pub bits: u32,
}

/// An IPv6 address: its sixteen octets as one big-endian number.
#[derive(Clone, Copy, PartialEq, Eq, Structural, Debug, Hash, PartialOrd, Ord)]
pub struct Ipv6Addr {
    pub bits: u128,
}

#[derive(Clone, Copy, PartialEq, Eq, Structural, Debug, Hash, PartialOrd, Ord)]
pub enum IpAddr {
    V4(Ipv4Addr),
    V6(Ipv6Addr),
}

#[derive(Clone, Copy, PartialEq, Eq, Structural, Debug, Hash, PartialOrd, Ord)]
pub struct SocketAddr {
    pub ip: IpAddr,
    pub port: u16,
}

impl Ipv4Addr {
    /// The four octets in the order in which they are written.
    pub open spec fn octets_spec(self) -> Seq<u8> {
        be_bytes(self.bits as nat, 4)
    }

    pub fn new(a: u8, b: u8, c: u8, d: u8) -> (ip: Ipv4Addr)
        ensures
            ip.octets_spec() == seq![a, b, c, d],
            ip.bits == a * 0x1_00_00_00 + b * 0x1_00_00 + c * 0x1_00 + d,
    {
        let bits: u32 = a as u32 * 0x1_00_00_00 + b as u32 * 0x1_00_00 + c as u32 * 0x1_00
            + d as u32;
        proof {
            let (n, m, k) = (
                (a * 0x1_00_00 + b * 0x1_00 + c) as nat,
                (a * 0x1_00 + b) as nat,
                a as nat,
            );
            assert(bits as nat / 256 == n && bits as nat % 256 == d);
            assert(n / 256 == m && n % 256 == c);
            assert(m / 256 == k && m % 256 == b);
            assert(k / 256 == 0 && k % 256 == a);
            assert(be_bytes(0, 0) =~= Seq::<u8>::empty());
            assert(be_bytes(k, 1) =~= seq![a]);
            assert(be_bytes(m, 2) =~= seq![a, b]);
            assert(be_bytes(n, 3) =~= seq![a, b, c]);
            assert(be_bytes(bits as nat, 4) =~= seq![a, b, c, d]);
        }
        Ipv4Addr { bits }
    }

    /// The four octets in the order in which they are written.
    pub fn octets(&self) -> (o: Vec<u8>)
        ensures
            o@ == self.octets_spec(),
            o@.len() == 4,
    {
        let mut o: Vec<u8> = Vec::new();
        push_be(&mut o, self.bits as u128, 4);
        proof {
            crate::be::lemma_be_bytes_len(self.bits as nat, 4);
            assert(o@ =~= self.octets_spec());
        }
        o
    }

    /// Reads four octets of `buf` from `at` on.
    pub fn read(buf: &[u8], at: usize) -> (ip: Ipv4Addr)
        requires
            at + 4 <= buf@.len(),
        ensures
            ip.octets_spec() == buf@.subrange(at as int, at + 4),
            ip.bits == be_value(buf@.subrange(at as int, at + 4)),
    {
        let bits: u128 = read_be(buf, at, 4);
        proof {
            crate::be::lemma_pow256_values();
            crate::be::be_round_trip_bytes(buf@.subrange(at as int, at + 4));
        }
        Ipv4Addr { bits: bits as u32 }
    }
}

impl Ipv6Addr {
    /// The sixteen octets in the order in which they are written.
    pub open spec fn octets_spec(self) -> Seq<u8> {
        be_bytes(self.bits as nat, 16)
    }

    /// The sixteen octets in the order in which they are written.
    pub fn octets(&self) -> (o: Vec<u8>)
        ensures
            o@ == self.octets_spec(),
            o@.len() == 16,
    {
        let mut o: Vec<u8> = Vec::new();
        push_be(&mut o, self.bits, 16);
        proof {
            crate::be::lemma_be_bytes_len(self.bits as nat, 16);
            assert(o@ =~= self.octets_spec());
        }
        o
    }

    /// Reads sixteen octets of `buf` from `at` on.
    pub fn read(buf: &[u8], at: usize) -> (ip: Ipv6Addr)
        requires
            at + 16 <= buf@.len(),
        ensures
            ip.octets_spec() == buf@.subrange(at as int, at + 16),
            ip.bits == be_value(buf@.subrange(at as int, at + 16)),
    {
        let bits: u128 = read_be(buf, at, 16);
        proof {
            crate::be::be_round_trip_bytes(buf@.subrange(at as int, at + 16));
        }
        Ipv6Addr { bits }
    }
}

/// Two IPv4 addresses with the same octets are the same address.
pub proof fn ipv4_octets_injective(a: Ipv4Addr, b: Ipv4Addr)
    requires
        a.octets_spec() == b.octets_spec(),
    ensures
        a == b,
{
    crate::be::lemma_pow256_values();
    crate::be::be_round_trip(a.bits as nat, 4);
    crate::be::be_round_trip(b.bits as nat, 4);
}

/// Two IPv6 addresses with the same octets are the same address.
pub proof fn ipv6_octets_injective(a: Ipv6Addr, b: Ipv6Addr)
    requires
        a.octets_spec() == b.octets_spec(),
    ensures
        a == b,
{
    crate::be::lemma_pow256_values();
    crate::be::be_round_trip(a.bits as nat, 16);
    crate::be::be_round_trip(b.bits as nat, 16);
}

impl SocketAddr {
    pub fn new(ip: IpAddr, port: u16) -> (a: SocketAddr)
        ensures
            a.ip == ip,
            a.port == port,
    {
        SocketAddr { ip, port }
    }
}

} // verus!
