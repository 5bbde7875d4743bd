use proxy::be::{push_be, read_be, read_be16};
use proxy::checksum::checksum_of;
use proxy::deps::dns_message::{DnsQuestion, DnsRequest};
use proxy::fakeip::{FakeIp, InnerCache};
use proxy::net_text::{ip_text, parse_ip, read_host};
use proxy::fakeip_mapback::{
    map_back_context, map_back_host, FakeIpMapBackDatagramSession,
    FakeIpMapBackDatagramSessionHandler, FakeIpMapBackStreamHandler,
};
use proxy::flow::tun::TunBufferToken;
use proxy::flow::{dest_text, DestinationAddr, FlowContext, HostName, SizeHint};
use proxy::ip_stack::datagram::{IpStackDatagramSession, SendVerdict};
use proxy::ip_stack::device::{interface_setup, Device, DeviceReply};
use proxy::ip_stack::{
    after_delivery, answer_udp, encoded_reply, forward_udp, hijack_dns, next_poll, place_reply,
    plan_reply, poll_still_due, process_packet, process_tcp, process_udp, AnswerStep, Delivery,
    DnsStep, Packet, ReplyVerdict, TcpVerdict, UdpStep, UdpVerdict,
};
use proxy::net::{IpAddr, Ipv4Addr, Ipv6Addr, SocketAddr};
use proxy::tables::{AddrMap, NameMap};

fn v4(a: u8, b: u8, c: u8, d: u8) -> IpAddr {
    IpAddr::V4(Ipv4Addr::new(a, b, c, d))
}

fn v6(bits: u128) -> IpAddr {
    IpAddr::V6(Ipv6Addr { bits })
}

fn at(ip: IpAddr, port: u16) -> SocketAddr {
    SocketAddr::new(ip, port)
}

fn fake() -> FakeIp {
    FakeIp::new([11, 17], [0xfc, 1, 2, 3, 4, 5, 6, 7, 8, 9, 10, 11, 12, 13], None)
}

fn udp4(payload: &[u8]) -> Vec<u8> {
    let total = 28 + payload.len();
    let mut p = vec![0x45, 0, (total >> 8) as u8, total as u8, 0, 0, 0, 0, 64, 17, 0, 0];
    p.extend([10, 0, 0, 1, 8, 8, 8, 8, 0x30, 0x39, 0, 53]);
    p.extend([0, (8 + payload.len()) as u8, 0, 0]);
    p.extend(payload);
    p
}

#[test]
fn numbers_in_bytes() {
    let mut b = Vec::new();
    push_be(&mut b, 0x0102_0304, 4);
    assert_eq!(b, vec![1, 2, 3, 4]);
    assert_eq!(read_be(&b, 1, 2), 0x0203);
    assert_eq!(read_be16(&b, 2), 0x0304);
    assert_eq!(Ipv4Addr::new(1, 2, 3, 4).octets(), vec![1, 2, 3, 4]);
    assert_eq!(Ipv4Addr::read(&[0, 1, 2, 3, 4], 1), Ipv4Addr { bits: 0x0102_0304 });
    let six = Ipv6Addr { bits: 0x2001_0db8 << 96 };
    assert_eq!(Ipv6Addr::read(&six.octets(), 0), six);
}

#[test]
fn the_internet_checksum() {
    let header = [
        0x45, 0x00, 0x00, 0x73, 0x00, 0x00, 0x40, 0x00, 0x40, 0x11, 0x00, 0x00, 0xc0, 0xa8, 0x00,
        0x01, 0xc0, 0xa8, 0x00, 0xc7,
    ];
    assert_eq!(checksum_of(&header), 0xb861);
    let mut whole = header;
    whole[10] = 0xb8;
    whole[11] = 0x61;
    assert_eq!(checksum_of(&whole), 0);
    assert_eq!(checksum_of(&[]), 0xffff);
    assert_eq!(checksum_of(&[1]), 0xfeff);
}

#[test]
fn tables_hold_one_entry_each() {
    let mut t: AddrMap<u8> = AddrMap::new();
    t.insert(at(v4(1, 1, 1, 1), 1), 1);
    t.insert(at(v4(1, 1, 1, 1), 2), 2);
    t.insert(at(v4(1, 1, 1, 1), 1), 3);
    assert_eq!(t.get(at(v4(1, 1, 1, 1), 1)), Some(&3));
    assert!(t.contains(at(v4(1, 1, 1, 1), 2)));
    assert_eq!(t.remove(at(v4(1, 1, 1, 1), 2)), Some(2));
    assert_eq!(t.remove(at(v4(1, 1, 1, 1), 2)), None);
    assert_eq!(t.entries.len(), 1);
    let mut n: NameMap<u8> = NameMap::new();
    n.insert("a".to_string(), 1);
    n.insert("a".to_string(), 2);
    assert_eq!(n.get(&"a".to_string()), Some(&2));
    assert_eq!(n.get(&"b".to_string()), None);
}

#[test]
fn size_hints() {
    assert_eq!(SizeHint::AtLeast(10).with_min_content(4), 10);
    assert_eq!(SizeHint::AtLeast(3).with_min_content(4), 3);
    assert_eq!(SizeHint::Unknown { overhead: 5 }.with_min_content(4), 9);
}

#[test]
fn destinations_as_text() {
    let d = DestinationAddr { host: HostName::DomainName("a.b".to_string()), port: 80 };
    assert_eq!(dest_text(&d), "a.b:80");
    let d = DestinationAddr::from_socket_addr(at(v4(1, 2, 3, 4), 5));
    assert_eq!(dest_text(&d), "1.2.3.4:5");
}

#[test]
fn fake_addresses_stand_for_names() {
    let mut f = fake();
    let (a, fresh) = f.resolve_ipv4("a".to_string());
    assert!(fresh);
    assert_eq!(a, Ipv4Addr::new(11, 17, 0, 1));
    let (b, _) = f.resolve_ipv4("b".to_string());
    assert_eq!(b, Ipv4Addr::new(11, 17, 0, 2));
    let (again, fresh) = f.resolve_ipv4("a".to_string());
    assert!(again == a && !fresh);
    let (six, fresh) = f.resolve_ipv6("a".to_string());
    assert!(!fresh);
    assert_eq!(&six.octets()[12..], &[12, 13, 0, 1]);
    assert_eq!(f.lookup_domain_by_fake_ip(IpAddr::V4(b)), Some("b".to_string()));
    assert_eq!(f.lookup_domain_by_fake_ip(IpAddr::V6(six)), Some("a".to_string()));
    assert_eq!(f.lookup_domain_by_fake_ip(v4(11, 17, 0, 3)), None);
    assert_eq!(f.lookup_domain_by_fake_ip(v4(11, 18, 0, 1)), None);
    assert!(f.is_fake_ip_v4(a) && !f.is_fake_ip_v4(Ipv4Addr::new(8, 8, 8, 8)));
    assert!(f.is_fake_ip_v6(six) && !f.is_fake_ip_v6(Ipv6Addr { bits: 1 }));
    let s = f.snapshot();
    assert_eq!(s.current, 3);
    assert_eq!(s.cache, vec![("a".to_string(), 1), ("b".to_string(), 2)]);
}

#[test]
fn fake_addresses_are_loaded() {
    let saved = InnerCache { current: 0xffff, cache: vec![("x".to_string(), 7)] };
    let mut f = FakeIp::new([1, 2], [0; 14], Some(saved));
    assert_eq!(f.lookup_or_alloc("x".to_string()), (7, false));
    assert_eq!(f.lookup_or_alloc("y".to_string()), (0xffff, true));
    assert_eq!(f.lookup_or_alloc("z".to_string()), (0, true));
}

#[test]
fn fake_numbers_survive_a_restart() {
    let mut f = fake();
    for i in 0..1000 {
        f.lookup_or_alloc(format!("n{}", i));
    }
    let mut saved = f.snapshot();
    saved.cache.sort();
    let mut g = FakeIp::new([11, 17], [0; 14], Some(saved));
    for i in 0..1000 {
        assert_eq!(g.lookup_or_alloc(format!("n{}", i)), f.lookup_or_alloc(format!("n{}", i)));
    }
    assert_eq!(g.lookup_or_alloc("new".to_string()), (1001, true));
}

#[test]
fn each_name_has_its_own_number() {
    let mut f = fake();
    let mut given = Vec::new();
    for i in 0..1000 {
        given.push(f.lookup_or_alloc(format!("n{}", i)).0);
    }
    for i in (0..1000).rev() {
        let name = format!("n{}", i);
        assert_eq!(f.lookup_or_alloc(name.clone()), (given[i], false));
        let index = given[i];
        let ip = v4(11, 17, (index / 256) as u8, (index % 256) as u8);
        assert_eq!(f.lookup_domain_by_fake_ip(ip), Some(name));
    }
    given.sort();
    given.dedup();
    assert_eq!(given.len(), 1000);
    assert_eq!(f.lookup_domain_by_fake_ip(v4(11, 17, 0, 0)), None);
    assert_eq!(f.lookup_domain_by_fake_ip(v4(11, 17, 3, 233)), None);
}

#[test]
fn texts_spell_addresses() {
    assert_eq!(parse_ip("1.2.3.4"), Some(v4(1, 2, 3, 4)));
    assert_eq!(parse_ip("255.255.255.255"), Some(v4(255, 255, 255, 255)));
    assert_eq!(parse_ip("::1"), Some(IpAddr::V6(Ipv6Addr { bits: 1 })));
    let mapped = IpAddr::V6(Ipv6Addr { bits: 0xffff_0102_0304 });
    assert_eq!(parse_ip("::ffff:1.2.3.4"), Some(mapped));
    for text in ["", "1.2.3", "1.2.3.4.5", "01.2.3.4", "1.2.3.256", " 1.2.3.4", "1.2.3.4 ", "1..3.4", "[::1]"] {
        assert_eq!(parse_ip(text), None);
    }
    assert_eq!(ip_text(v4(1, 20, 0, 255)), "1.20.0.255");
    assert_eq!(ip_text(mapped), "::ffff:1.2.3.4");
    assert_eq!(ip_text(IpAddr::V6(Ipv6Addr { bits: 1 })), "::1");
    assert!(matches!(read_host("a.b".to_string()), HostName::DomainName(n) if n == "a.b"));
    assert!(matches!(read_host("::1".to_string()), HostName::Ip(IpAddr::V6(_))));
}

#[test]
fn the_least_recent_name_goes() {
    let mut f = fake();
    for i in 0..1000 {
        f.lookup_or_alloc(format!("n{}", i));
    }
    f.lookup_or_alloc("n0".to_string());
    f.lookup_or_alloc("new".to_string());
    assert_eq!(f.lookup_domain_by_fake_ip(v4(11, 17, 0, 1)), Some("n0".to_string()));
    assert_eq!(f.lookup_domain_by_fake_ip(v4(11, 17, 0, 2)), None);
    assert_eq!(f.snapshot().cache.len(), 1000);
}

#[test]
fn names_come_back() {
    let mut f = fake();
    let (a, _) = f.resolve_ipv4("a.b".to_string());
    let h = map_back_host(&f, HostName::Ip(IpAddr::V4(a)));
    assert!(matches!(&h, HostName::DomainName(n) if n == "a.b"));
    assert!(matches!(map_back_host(&f, HostName::Ip(v4(8, 8, 8, 8))), HostName::Ip(_)));
    let c = FlowContext::new(
        at(v4(10, 0, 0, 1), 1),
        DestinationAddr { host: HostName::Ip(IpAddr::V4(a)), port: 443 },
    );
    let c = map_back_context(&f, c);
    assert!(matches!(&c.remote_peer.host, HostName::DomainName(n) if n == "a.b"));
    assert_eq!(c.remote_peer.port, 443);
    let mut s = FakeIpMapBackDatagramSession::new();
    let to = s.on_recv(&f, DestinationAddr { host: HostName::Ip(IpAddr::V4(a)), port: 9 });
    assert!(matches!(&to.host, HostName::DomainName(n) if n == "a.b"));
    let from = s.send_to(to);
    assert!(matches!(from.host, HostName::Ip(ip) if ip == IpAddr::V4(a)));
    assert_eq!(FakeIpMapBackStreamHandler::new(1, 2).next, 2);
    assert_eq!(FakeIpMapBackDatagramSessionHandler::new(1, 2).fakeip, 1);
}

#[test]
fn packets_are_read() {
    match process_packet(&udp4(b"hello")) {
        Packet::Udp { src, dst, payload } => {
            assert_eq!(src, at(v4(10, 0, 0, 1), 12345));
            assert_eq!(dst, at(v4(8, 8, 8, 8), 53));
            assert_eq!(payload, b"hello".to_vec());
        }
        _ => panic!("a datagram"),
    }
    let mut tcp = vec![0x60, 0, 0, 0, 0, 20, 6, 64];
    tcp.extend([0; 15]);
    tcp.push(1);
    tcp.extend([0; 15]);
    tcp.push(2);
    tcp.extend([0, 80, 1, 0xbb, 0, 0, 0, 0, 0, 0, 0, 0, 0x50, 2, 0, 0, 0, 0, 0, 0]);
    match process_packet(&tcp) {
        Packet::Tcp { src, dst, syn } => {
            assert_eq!((src, dst), (at(v6(1), 80), at(v6(2), 443)));
            assert!(syn);
        }
        _ => panic!("a segment"),
    }
    assert!(matches!(process_packet(&udp4(b"hello")[..30]), Packet::Ignored));
    let mut icmp = udp4(b"x");
    icmp[9] = 1;
    assert!(matches!(process_packet(&icmp), Packet::Ignored));
    assert!(matches!(process_packet(&[]), Packet::Ignored));
}

#[test]
fn flows_are_opened_and_dropped() {
    let (src, dst) = (at(v4(10, 0, 0, 1), 1), at(v4(8, 8, 8, 8), 53));
    let mut t: AddrMap<u8> = AddrMap::new();
    match process_tcp(&t, true, src, dst) {
        TcpVerdict::Open(c) => assert!(c.local_peer == src && !c.af_sensitive),
        _ => panic!("a new flow"),
    }
    match forward_udp(&t, true, src, dst) {
        UdpVerdict::Open(c) => assert!(c.remote_peer.port == 53 && c.af_sensitive),
        _ => panic!("a new session"),
    }
    assert!(matches!(process_tcp(&t, false, src, dst), TcpVerdict::Drop));
    assert!(matches!(forward_udp(&t, false, src, dst), UdpVerdict::Drop));
    t.insert(src, 1);
    assert!(matches!(process_tcp(&t, false, src, dst), TcpVerdict::Deliver));
    assert!(matches!(forward_udp(&t, false, src, dst), UdpVerdict::Deliver));
    after_delivery(&mut t, src, Delivery::Full);
    assert!(t.contains(src));
    after_delivery(&mut t, src, Delivery::Gone);
    assert!(!t.contains(src));
}

fn dns_query(qtype: u8) -> Vec<u8> {
    let mut q = vec![0x12, 0x34, 1, 0, 0, 1, 0, 0, 0, 0, 0, 0];
    q.extend(b"\x01a\x01b\x00");
    q.extend([0, qtype, 0, 1]);
    q
}

#[test]
fn queries_are_answered_with_fake_addresses() {
    let mut f = fake();
    let q = dns_query(1);
    match hijack_dns(true, 53, &q, Some(&mut f)) {
        DnsStep::Reply { message, refused } => {
            assert!(!refused);
            assert_eq!(&message[..12], &[0x12, 0x34, 0x85, 0, 0, 1, 0, 1, 0, 0, 0, 0]);
            assert_eq!(&message[message.len() - 10..], &[0, 0, 0, 60, 0, 4, 11, 17, 0, 1]);
        }
        _ => panic!("an answer"),
    }
    match hijack_dns(true, 53, &dns_query(28), Some(&mut f)) {
        DnsStep::Reply { message, refused } => {
            assert!(refused);
            assert_eq!(message[3] & 15, 5);
        }
        _ => panic!("a refusal"),
    }
    assert!(matches!(hijack_dns(false, 53, &q, Some(&mut f)), DnsStep::Pass));
    assert!(matches!(hijack_dns(true, 54, &q, Some(&mut f)), DnsStep::Pass));
    assert!(matches!(hijack_dns(true, 53, &q, None), DnsStep::Pass));
    assert!(matches!(hijack_dns(true, 53, b"no query", Some(&mut f)), DnsStep::Pass));
    assert!(matches!(encoded_reply(None, true), DnsStep::Discard));
    assert!(matches!(encoded_reply(None, false), DnsStep::Pass));
    let req = DnsRequest {
        id: 1,
        op_code: 0,
        recursion_desired: true,
        checking_disabled: false,
        questions: vec![DnsQuestion { name: "c.".to_string(), qtype: 1 }],
    };
    let (reply, refused) = plan_reply(&req, &mut f).unwrap();
    assert!(!refused);
    assert_eq!(reply.answers, vec![(60, 0x0b11_0002)]);
}

#[test]
fn datagrams_are_answered_or_handed_on() {
    let (src, dst) = (at(v4(10, 0, 0, 1), 12345), at(v4(8, 8, 8, 8), 53));
    let mut f = fake();
    let t: AddrMap<u8> = AddrMap::new();
    let (message, refused) =
        match process_udp(&t, true, src, dst, &dns_query(1), true, Some(&mut f)) {
            UdpStep::NeedBuffer { message, refused } => (message, refused),
            _ => panic!("an answer"),
        };
    assert!(!refused);
    let buffer = TunBufferToken::new([1, 1], vec![0; 200]);
    match answer_udp(&t, true, src, dst, &message, refused, Some(buffer)) {
        AnswerStep::Send { buffer, len } => match process_packet(&buffer.data[..len]) {
            Packet::Udp { src: s, dst: d, payload } => {
                assert_eq!((s, d, payload), (dst, src, message.clone()));
            }
            _ => panic!("a datagram"),
        },
        _ => panic!("sent"),
    }
    assert!(matches!(
        answer_udp(&t, true, src, dst, &message, refused, None),
        AnswerStep::Nothing
    ));
    let six = at(v6(1), 1);
    let buffer = TunBufferToken::new([1, 1], vec![0; 200]);
    let r = answer_udp(&t, true, six, dst, &message, false, Some(buffer));
    assert!(matches!(r, AnswerStep::GiveBack { forward: Some(UdpVerdict::Open(_)), .. }));
    let buffer = TunBufferToken::new([1, 1], vec![0; 200]);
    let r = answer_udp(&t, true, six, dst, &message, true, Some(buffer));
    assert!(matches!(r, AnswerStep::GiveBack { forward: None, .. }));
    let r = process_udp(&t, false, src, dst, &dns_query(1), false, Some(&mut f));
    assert!(matches!(r, UdpStep::Forward(UdpVerdict::Drop)));
    let r = process_udp(&t, true, src, dst, b"no query", true, Some(&mut f));
    assert!(matches!(r, UdpStep::Forward(UdpVerdict::Open(_))));
}

#[test]
fn answers_are_put_in_packets() {
    let (src, dst) = (at(v4(10, 0, 0, 1), 12345), at(v4(8, 8, 8, 8), 53));
    let buffer = TunBufferToken::new([3, 4], vec![9; 100]);
    match place_reply(src, dst, b"hello", false, buffer) {
        ReplyVerdict::Send { buffer, len } => {
            assert_eq!((len, buffer.signature), (33, [3, 4]));
            assert_eq!(checksum_of(&buffer.data[..20]), 0);
            match process_packet(&buffer.data[..len]) {
                Packet::Udp { src: s, dst: d, payload } => {
                    assert_eq!((s, d), (dst, src));
                    assert_eq!(payload, b"hello".to_vec());
                }
                _ => panic!("a datagram"),
            }
            assert_eq!(buffer.data[33], 9);
        }
        _ => panic!("sent"),
    }
    let buffer = TunBufferToken::new([3, 4], vec![9; 100]);
    match place_reply(at(v6(1), 1), dst, b"hello", false, buffer) {
        ReplyVerdict::GiveBack { buffer, forward } => {
            assert!(forward);
            assert_eq!(buffer.into_parts(), ([3, 4], vec![9; 100]));
        }
        _ => panic!("no packet"),
    }
    let buffer = TunBufferToken::new([3, 4], vec![]);
    let big = vec![0; 1473];
    let v = place_reply(src, dst, &big, false, buffer);
    assert!(matches!(v, ReplyVerdict::GiveBack { forward: false, .. }));
}

#[test]
fn datagrams_go_back_to_their_client() {
    let s = IpStackDatagramSession { local_endpoint: at(v4(10, 0, 0, 1), 12345) };
    let from = DestinationAddr { host: HostName::Ip(v4(8, 8, 8, 8)), port: 53 };
    assert!(s.can_send(&from, b"hello"));
    let buffer = TunBufferToken::new([1, 2], vec![0; 100]);
    match s.send_to(&from, b"hello", buffer) {
        SendVerdict::Send { buffer, len } => {
            assert_eq!(len, 53);
            assert_eq!(checksum_of(&buffer.data[..20]), 0);
            // The pseudo header and the datagram add up.
            let mut sum = buffer.data[12..20].to_vec();
            sum.extend([0, 17, 0, 13]);
            sum.extend(&buffer.data[20..33]);
            assert_eq!(checksum_of(&sum), 0);
            match process_packet(&buffer.data[..33]) {
                Packet::Udp { src, dst, payload } => {
                    assert_eq!((src, dst), (at(v4(8, 8, 8, 8), 53), at(v4(10, 0, 0, 1), 12345)));
                    assert_eq!(payload, b"hello".to_vec());
                }
                _ => panic!("a datagram"),
            }
        }
        _ => panic!("sent"),
    }
    let six = IpStackDatagramSession { local_endpoint: at(v6(1), 2) };
    let from6 = DestinationAddr { host: HostName::Ip(v6(3)), port: 4 };
    match six.send_to(&from6, b"x", TunBufferToken::new([1, 2], vec![0; 100])) {
        SendVerdict::Send { buffer, len } => {
            assert_eq!(len, 49);
            let mut sum = buffer.data[8..40].to_vec();
            sum.extend([0, 17, 0, 9]);
            sum.extend(&buffer.data[40..49]);
            assert_eq!(checksum_of(&sum), 0);
            assert!(matches!(process_packet(&buffer.data[..49]), Packet::Udp { .. }));
        }
        _ => panic!("sent"),
    }
    let v = six.send_to(&from, b"x", TunBufferToken::new([1, 2], vec![0; 100]));
    assert!(matches!(v, SendVerdict::Keep { .. }));
    let name = DestinationAddr { host: HostName::DomainName("a".to_string()), port: 4 };
    assert!(!s.can_send(&name, b"x"));
    assert!(!s.can_send(&from, &[0; 1453]));
}

#[test]
fn the_device_of_the_stack() {
    let i = interface_setup();
    assert!(i.any_ip);
    let mut d = Device::new();
    assert!(matches!(d.receive(), DeviceReply::Nothing));
    assert!(matches!(d.transmit(), DeviceReply::NeedBuffer));
    d.lend(TunBufferToken::new([1, 2], vec![0; 10]));
    assert!(matches!(d.transmit(), DeviceReply::Ready));
    assert_eq!(d.consume_tx(4).signature, [1, 2]);
    d.rx = Some(vec![7]);
    d.lend(TunBufferToken::new([1, 2], vec![0; 10]));
    assert!(matches!(d.receive(), DeviceReply::Ready));
    assert_eq!(d.consume_rx(), vec![7]);
    let (rx, tx) = d.release();
    assert!(rx.is_none() && tx.is_some());
    assert!(poll_still_due(5, 5) && !poll_still_due(6, 5));
    assert_eq!(next_poll(5, Some(3), 9), Some(8));
    assert_eq!(next_poll(5, Some(4), 9), None);
    assert_eq!(next_poll(5, None, 9), None);
}
