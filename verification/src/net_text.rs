//! Addresses as text.
use vstd::prelude::*;

use crate::deps::dns_proto::aaaa_record_data;
use crate::deps::dns_proto::aaaa_record_text;
use crate::deps::dns_proto::parse_a_data;
use crate::deps::dns_proto::parse_aaaa_data;
use crate::deps::dns_proto::write_aaaa_data;
use crate::flow::HostName;
use crate::flow::HostView;
use crate::net::IpAddr;
use crate::net::Ipv4Addr;
use crate::net::Ipv6Addr;
use crate::text::decimal;
use crate::text::digits_value;
use crate::text::is_digit;
use crate::text::push_decimal;
use crate::text::string_of;

verus! {

/// An IPv4 address in dotted decimal notation.
pub open spec fn dotted(bits: u32) -> Seq<char> {
    decimal((bits / 0x1_00_00_00) as nat) + seq!['.'] + decimal(
        (bits / 0x1_00_00 % 0x1_00) as nat,
    ) + seq!['.'] + decimal((bits / 0x1_00 % 0x1_00) as nat) + seq!['.'] + decimal(
        (bits % 0x1_00) as nat,
    )
}

/// The IPv4 address, as a number, that a text spells in dotted decimal notation.
pub open spec fn ipv4_of(text: Seq<char>) -> Option<u32> {
    if exists|bits: u32| text == #[trigger] dotted(bits) {
        Some(choose|bits: u32| text == #[trigger] dotted(bits))
    } else {
        None
    }
}

/// The address that a text spells.
pub open spec fn ip_of(text: Seq<char>) -> Option<IpAddr> {
    match (ipv4_of(text), aaaa_record_data(text)) {
        (Some(bits), _) => Some(IpAddr::V4(Ipv4Addr { bits })),
        (None, Some(bits)) => Some(IpAddr::V6(Ipv6Addr { bits })),
        (None, None) => None,
    }
}

/// The address that a text spells, if it spells one.
pub fn parse_ip(text: &str) -> (r: Option<IpAddr>)
    ensures
        r == ip_of(text@),
{
    if let Some(bits) = parse_a_data(text) {
        return Some(IpAddr::V4(Ipv4Addr { bits }));
    }
    match parse_aaaa_data(text) {
        Some(bits) => Some(IpAddr::V6(Ipv6Addr { bits })),
        None => None,
    }
}

/// An address in text.
pub open spec fn ip_text_spec(ip: IpAddr) -> Seq<char> {
    match ip {
        IpAddr::V4(ip) => dotted(ip.bits),
        IpAddr::V6(ip) => aaaa_record_text(ip.bits),
    }
}

/// An IPv4 address in dotted decimal notation.
pub fn ipv4_text(ip: Ipv4Addr) -> (r: String)
    ensures
        r@ == dotted(ip.bits),
{
    let mut t: Vec<char> = Vec::new();
    push_decimal(&mut t, (ip.bits / 0x1_00_00_00) as u64);
    t.push('.');
    push_decimal(&mut t, (ip.bits / 0x1_00_00 % 0x1_00) as u64);
    t.push('.');
    push_decimal(&mut t, (ip.bits / 0x1_00 % 0x1_00) as u64);
    t.push('.');
    push_decimal(&mut t, (ip.bits % 0x1_00) as u64);
    assert(t@ =~= dotted(ip.bits));
    string_of(t.as_slice())
}

/// An address in text.
pub fn ip_text(ip: IpAddr) -> (r: String)
    ensures
        r@ == ip_text_spec(ip),
{
    match ip {
        IpAddr::V4(ip) => ipv4_text(ip),
        IpAddr::V6(ip) => write_aaaa_data(ip.bits),
    }
}

/// The host that a text spells: an address where it spells one, else a name.
pub open spec fn host_of_text(text: Seq<char>) -> HostView {
    match ip_of(text) {
        Some(ip) => HostView::Ip(ip),
        None => HostView::DomainName(text),
    }
}

/// The host that a text spells: an address where it spells one, else a name.
pub fn read_host(text: String) -> (r: HostName)
    ensures
        r@ == host_of_text(text@),
{
    match parse_ip(text.as_str()) {
        Some(ip) => HostName::Ip(ip),
        None => HostName::DomainName(text),
    }
}

pub(crate) proof fn lemma_decimal(n: nat)
    ensures
        decimal(n).len() > 0,
        forall|i: int| 0 <= i < decimal(n).len() ==> is_digit(#[trigger] decimal(n)[i]),
        digits_value(decimal(n)) == n,
    decreases n,
{
    if n < 10 {
        reveal_with_fuel(digits_value, 2);
        assert(decimal(n).drop_last() =~= Seq::<char>::empty());
    } else {
        lemma_decimal(n / 10);
        let s = decimal(n / 10);
        assert(decimal(n).drop_last() =~= s);
        assert forall|i: int| 0 <= i < decimal(n).len() implies is_digit(
            #[trigger] decimal(n)[i],
        ) by {
            if i < s.len() {
                assert(decimal(n)[i] == s[i]);
            }
        }
    }
}

proof fn lemma_cut(a: nat, rest_a: Seq<char>, b: nat, rest_b: Seq<char>)
    requires
        decimal(a) + seq!['.'] + rest_a == decimal(b) + seq!['.'] + rest_b,
    ensures
        a == b,
        rest_a == rest_b,
{
    let x = decimal(a);
    let y = decimal(b);
    let s = x + seq!['.'] + rest_a;
    let t = y + seq!['.'] + rest_b;
    lemma_decimal(a);
    lemma_decimal(b);
    assert(s[x.len() as int] == '.');
    assert(t[y.len() as int] == '.');
    if x.len() < y.len() {
        assert(t[x.len() as int] == y[x.len() as int]);
        assert(is_digit(y[x.len() as int]));
    } else if y.len() < x.len() {
        assert(s[y.len() as int] == x[y.len() as int]);
        assert(is_digit(x[y.len() as int]));
    }
    assert(x =~= s.subrange(0, x.len() as int));
    assert(y =~= t.subrange(0, y.len() as int));
    assert(rest_a =~= s.subrange(x.len() as int + 1, s.len() as int));
    assert(rest_b =~= t.subrange(y.len() as int + 1, t.len() as int));
}

proof fn lemma_dots(a0: nat, a1: nat, a2: nat, a3: nat, b0: nat, b1: nat, b2: nat, b3: nat)
    requires
        decimal(a0) + seq!['.'] + decimal(a1) + seq!['.'] + decimal(a2) + seq!['.'] + decimal(a3)
            == decimal(b0) + seq!['.'] + decimal(b1) + seq!['.'] + decimal(b2) + seq!['.']
            + decimal(b3),
    ensures
        a0 == b0,
        a1 == b1,
        a2 == b2,
        a3 == b3,
{
    let dot = seq!['.'];
    let ra = decimal(a2) + dot + decimal(a3);
    let rb = decimal(b2) + dot + decimal(b3);
    assert(decimal(a0) + dot + (decimal(a1) + dot + ra) =~= decimal(a0) + dot + decimal(a1) + dot
        + decimal(a2) + dot + decimal(a3));
    assert(decimal(b0) + dot + (decimal(b1) + dot + rb) =~= decimal(b0) + dot + decimal(b1) + dot
        + decimal(b2) + dot + decimal(b3));
    lemma_cut(a0, decimal(a1) + dot + ra, b0, decimal(b1) + dot + rb);
    lemma_cut(a1, ra, b1, rb);
    lemma_cut(a2, decimal(a3), b2, decimal(b3));
    lemma_decimal(a3);
    lemma_decimal(b3);
}

proof fn lemma_octets(a: u32)
    ensures
        a == (a / 0x1_00_00_00) * 0x1_00_00_00 + (a / 0x1_00_00 % 0x1_00) * 0x1_00_00 + (a / 0x1_00
            % 0x1_00) * 0x1_00 + a % 0x1_00,
{
}

proof fn lemma_dotted(a: u32, b: u32)
    requires
        dotted(a) == dotted(b),
    ensures
        a == b,
{
    lemma_dots(
        (a / 0x1_00_00_00) as nat,
        (a / 0x1_00_00 % 0x1_00) as nat,
        (a / 0x1_00 % 0x1_00) as nat,
        (a % 0x1_00) as nat,
        (b / 0x1_00_00_00) as nat,
        (b / 0x1_00_00 % 0x1_00) as nat,
        (b / 0x1_00 % 0x1_00) as nat,
        (b % 0x1_00) as nat,
    );
    lemma_octets(a);
    lemma_octets(b);
}

/// An IPv4 address in dotted decimal notation is read back as that address.
pub proof fn dotted_is_read_back(ip: Ipv4Addr)
    ensures
        ip_of(dotted(ip.bits)) == Some(IpAddr::V4(ip)),
{
    let text = dotted(ip.bits);
    assert(exists|bits: u32| text == #[trigger] dotted(bits));
    lemma_dotted(ip.bits, choose|bits: u32| text == #[trigger] dotted(bits));
}

/// An IPv4 address in text is its four octets, parted by dots, and is read back as that address. A text
/// that spells no address is a name.
pub proof fn hosts_are_read(a: u8, b: u8, c: u8, d: u8, ip: Ipv4Addr, name: Seq<char>)
    requires
        ip.bits == a * 0x1_00_00_00 + b * 0x1_00_00 + c * 0x1_00 + d,
        ip_of(name) is None,
    ensures
        ip_text_spec(IpAddr::V4(ip)) == decimal(a as nat) + seq!['.'] + decimal(b as nat) + seq!['.']
            + decimal(c as nat) + seq!['.'] + decimal(d as nat),
        host_of_text(ip_text_spec(IpAddr::V4(ip))) == HostView::Ip(IpAddr::V4(ip)),
        host_of_text(name) == HostView::DomainName(name),
{
    dotted_is_read_back(ip);
    lemma_parts(a, b, c, d, ip.bits);
}

pub(crate) proof fn lemma_parts(a: u8, b: u8, c: u8, d: u8, bits: u32)
    requires
        bits == a * 0x1_00_00_00 + b * 0x1_00_00 + c * 0x1_00 + d,
    ensures
        bits / 0x1_00_00_00 == a,
        bits / 0x1_00_00 % 0x1_00 == b,
        bits / 0x1_00 % 0x1_00 == c,
        bits % 0x1_00 == d,
{
    let m = a * 0x1_00 + b;
    let n = m * 0x1_00 + c;
    assert(bits == n * 0x1_00 + d);
    assert(bits / 0x1_00 == n && bits % 0x1_00 == d);
    assert(bits / 0x1_00_00 == m);
    assert(bits / 0x1_00_00_00 == a);
}

/// A text that the address records of DNS take for an IPv6 address is one, unless it is an IPv4 address.
pub proof fn ipv6_hosts_are_read(text: Seq<char>, bits: u128)
    requires
        ipv4_of(text) is None,
        aaaa_record_data(text) == Some(bits),
    ensures
        host_of_text(text) == HostView::Ip(IpAddr::V6(Ipv6Addr { bits })),
        ip_text_spec(IpAddr::V6(Ipv6Addr { bits })) == aaaa_record_text(bits),
{
}

} // verus!
