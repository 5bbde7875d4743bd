use proxy::dns_probe::{
    class_name, parse_domain_name, parse_header, read_answer, read_answers, read_question,
    read_questions, record_name, ProbeData,
};
use proxy::drop_handler::DropHandler;
use proxy::dual_stack_factory::DualStackOutboundFactory;
use proxy::flow::error::FlowError;
use proxy::flow::{DestinationAddr, FlowContext, HostName};
use proxy::net::{IpAddr, Ipv4Addr, Ipv6Addr, SocketAddr};
use proxy::redirect::{
    redirect, DatagramSessionRedirectFactory, DatagramSessionRedirectHandler, PeerProvider,
    StreamRedirectHandler, StreamRedirectOutboundFactory,
};
use proxy::resolve_dest::{try_resolve_forward, Resolved};
use proxy::resolver::{create_smart_resolver, resolved, ProxyPeerProvider};
use proxy::rule_dispatcher::dispatcher::{RuleDispatcher, TryMatchResult};
use proxy::rule_dispatcher::quanx::{
    parse_network, parse_rule, within_network, LoadedRule, RuleKind, RuleSet, Target,
};
use proxy::rule_dispatcher::rules::geoip::{GeoIpSet, RuleHandle};

fn v4(a: u8, b: u8, c: u8, d: u8) -> IpAddr {
    IpAddr::V4(Ipv4Addr::new(a, b, c, d))
}

fn context(host: HostName) -> FlowContext {
    let local = SocketAddr::new(v4(10, 0, 0, 1), 9);
    FlowContext::new(local, DestinationAddr { host, port: 443 })
}

fn name(n: &str) -> HostName {
    HostName::DomainName(n.to_string())
}

fn loaded(line: &str, action: u32, network: Option<(IpAddr, u8)>) -> LoadedRule {
    LoadedRule { rule: parse_rule(line).unwrap(), action: RuleHandle(action), network }
}

fn target<'a>(
    domain: Option<&'a str>,
    ip_v4: Option<[u8; 4]>,
    ip_v6: Option<u128>,
    country_v4: Option<&'a str>,
    country_v6: Option<&'a str>,
) -> Target<'a> {
    Target {
        domain,
        ip_v4: ip_v4.map(|o| Ipv4Addr::new(o[0], o[1], o[2], o[3])),
        ip_v6: ip_v6.map(|bits| Ipv6Addr { bits }),
        country_v4,
        country_v6,
    }
}

fn rule_set(lines: &[&str]) -> RuleSet {
    let lines: Vec<String> = lines.iter().map(|s| s.to_string()).collect();
    let actions = vec![("direct".to_string(), 0), ("proxy".to_string(), 1)];
    RuleSet::load_quanx_filter(&lines, &actions)
}

const DB8: u128 = 0x2001_0db8 << 96;

#[test]
fn rules_are_read() {
    let r = parse_rule("ip-cidr,10.0.0.0/8,direct,no-resolve").unwrap();
    assert_eq!(r.kind, RuleKind::IpCidr);
    assert_eq!((r.content.as_str(), r.action.as_str(), r.no_resolve), ("10.0.0.0/8", "direct", true));
    let r = parse_rule("final,proxy").unwrap();
    assert_eq!((r.kind, r.action.as_str(), r.no_resolve), (RuleKind::Final, "proxy", false));
    let kinds = [("host,a,b", RuleKind::Domain), ("domain,a,b", RuleKind::Domain),
        ("host-suffix,a,b", RuleKind::DomainSuffix), ("host-keyword,a,b", RuleKind::DomainKeyword),
        ("geoip,CN,b", RuleKind::GeoIp), ("ip-cidr,::/0,b", RuleKind::IpCidr),
        ("ip6-cidr,::/0,b", RuleKind::Ip6Cidr), ("ip-cidr6,::/0,b", RuleKind::Ip6Cidr)];
    for (line, kind) in kinds {
        assert_eq!(parse_rule(line).unwrap().kind, kind);
    }
    assert!(parse_rule("unknown,a,b").is_none());
    assert!(parse_rule("host,a").is_none());
    assert!(parse_rule("").is_none());
}

#[test]
fn networks_hold_addresses() {
    assert!(within_network(v4(10, 1, 2, 3), v4(10, 0, 0, 0), 8));
    assert!(!within_network(v4(11, 1, 2, 3), v4(10, 0, 0, 0), 8));
    assert!(within_network(v4(11, 1, 2, 3), v4(10, 0, 0, 0), 0));
    assert!(!within_network(v4(10, 0, 0, 0), v4(10, 0, 0, 0), 33));
    let six = |bits| IpAddr::V6(Ipv6Addr { bits });
    assert!(within_network(six(0x11), six(0x10), 124) && !within_network(six(0x20), six(0x10), 124));
    assert!(!within_network(six(0), v4(0, 0, 0, 0), 0));
}

#[test]
fn the_first_rule_wins() {
    let set = RuleSet {
        rules: vec![
            loaded("ip-cidr,10.0.0.0/8,a", 1, Some((v4(10, 0, 0, 0), 8))),
            loaded("host-suffix,qq.com,b", 2, None),
            loaded("host-keyword,google,c", 3, None),
            loaded("geoip,CN,d", 4, None),
            loaded("final,e", 5, None),
        ],
        first_resolving_rule_id: Some(4),
    };
    let target = |domain, ip, country| target(domain, ip, None, country, None);
    let m = |t| set.matched(t).map(|h: RuleHandle| h.0);
    assert_eq!(m(target(Some("im.qq.com"), Some([10, 0, 0, 1]), None)), Some(2));
    assert_eq!(m(target(Some("www.google.de"), None, None)), Some(3));
    assert_eq!(m(target(Some("x.y"), Some([10, 0, 0, 1]), None)), Some(1));
    assert_eq!(m(target(None, Some([1, 1, 1, 1]), Some("CN"))), Some(4));
    assert_eq!(m(target(None, Some([1, 1, 1, 1]), Some("US"))), Some(5));
    assert!(set.should_resolve("x.y") && !set.should_resolve("qq.com"));
    let none = RuleSet { rules: vec![], first_resolving_rule_id: None };
    assert!(none.matched(target(Some("x"), None, None)).is_none() && !none.should_resolve("x"));
}

#[test]
fn rule_sets_are_loaded() {
    let lines: Vec<String> = [
        "domain-suffix,qq.com,direct",
        "no rule",
        "ip-cidr,10.0.0.0/8,proxy",
        "host,a.b,elsewhere",
        "final,proxy",
    ]
    .iter()
    .map(|s| s.to_string())
    .collect();
    let actions = vec![("direct".to_string(), 4), ("proxy".to_string(), 5)];
    let set = RuleSet::load_quanx_filter(&lines, &actions);
    assert_eq!(set.rules.len(), 3);
    assert_eq!(set.first_resolving_rule_id, Some(1));
    assert_eq!(set.rules[1].network, Some((v4(10, 0, 0, 0), 8)));
    let m = |domain, ip| set.matched(target(domain, ip, None, None, None)).map(|h| h.0);
    assert_eq!(m(Some("im.qq.com"), None), Some(4));
    assert_eq!(m(None, Some([10, 1, 1, 1])), Some(5));
    assert_eq!(m(Some("a.b"), None), Some(5));
}

#[test]
fn networks_are_read() {
    assert_eq!(parse_network("192.168.0.0/16"), Some((v4(192, 168, 0, 0), 16)));
    assert_eq!(parse_network("2001:db8::/32"), Some((IpAddr::V6(Ipv6Addr { bits: DB8 }), 32)));
    assert_eq!(parse_network("::/128"), Some((IpAddr::V6(Ipv6Addr { bits: 0 }), 128)));
    for text in ["10.0.0.0", "10.0.0.0/33", "::/129", "10.0.0/8", "10.0.0.0/", "10.0.0.0/a", "/8", ""] {
        assert_eq!(parse_network(text), None);
    }
}

#[test]
fn rules_for_networks_keep_to_their_family() {
    let takes = |line: &str, v4, v6| rule_set(&[line]).matched(target(None, v4, v6, None, None)).is_some();
    let (ten, six) = (Some([10, 1, 1, 1]), Some(DB8 + 1));
    assert!(takes("ip-cidr,10.0.0.0/8,direct", ten, None));
    assert!(!takes("ip-cidr,10.0.0.0/8,direct", Some([11, 1, 1, 1]), None));
    assert!(!takes("ip-cidr,2001:db8::/32,direct", None, six));
    for kind in ["ip6-cidr", "ip-cidr6"] {
        assert!(takes(&format!("{},2001:db8::/32,direct", kind), None, six));
        assert!(!takes(&format!("{},10.0.0.0/8,direct", kind), ten, None));
        // The IPv6 address of a domain counts beside its IPv4 address.
        assert!(takes(&format!("{},2001:db8::/32,direct", kind), ten, six));
    }
}

#[test]
fn marked_rules_need_no_addresses() {
    assert!(!rule_set(&["ip-cidr,10.0.0.0/8,direct,no-resolve"]).should_resolve("a.b"));
    assert!(!rule_set(&["host,x.y,direct", "final,proxy"]).should_resolve("a.b"));
    let mut set = rule_set(&["host,x.y,direct", "geoip,CN,direct,no-resolve", "geoip,US,proxy"]);
    assert_eq!(set.first_resolving_rule_id, Some(2));
    assert!(set.should_resolve("a.b") && !set.should_resolve("x.y"));
    set.number_resolving(9);
    assert_eq!(set.first_resolving_rule_id, Some(9));
    let mut none = RuleSet::new();
    none.number_resolving(9);
    assert_eq!(none.first_resolving_rule_id, None);
}

#[test]
fn countries_have_rules() {
    let mut g = GeoIpSet::new();
    for i in 0..5 {
        assert!(g.insert(format!("C{}", i), RuleHandle(i)));
    }
    assert!(g.insert("C1".to_string(), RuleHandle(9)));
    assert_eq!(g.query(Some("C1")).map(|h| h.0), Some(1));
    assert_eq!(g.query(Some("C4")).map(|h| h.0), Some(4));
    assert!(g.query(Some("XX")).is_none() && g.query(None).is_none());
}

#[test]
fn flows_are_dispatched() {
    let rules = rule_set(&["host,a.b,proxy", "ip-cidr6,2001:db8::/32,proxy", "geoip,CN,direct"]);
    let mut d = RuleDispatcher::new(true, rules, 99);
    for i in 0..12 {
        assert_eq!(d.add_action(i * 10).map(|h| h.0), Some(i));
    }
    assert_eq!(d.action_for(Some(RuleHandle(11))).ok(), Some(110));
    assert_eq!(d.action_for(None).ok(), Some(99));
    assert!(matches!(d.action_for(Some(RuleHandle(12))), Err(FlowError::NoOutbound)));
    assert!(matches!(d.try_match(&context(name("a.b")), None, true), TryMatchResult::Matched(10)));
    let c = context(name("x.y"));
    assert!(matches!(d.try_match(&c, None, false), TryMatchResult::Failed(FlowError::NoOutbound)));
    match d.try_match(&c, None, true) {
        TryMatchResult::NeedAsync(mut a) => {
            a.on_resolved(Some(vec![Ipv4Addr::new(1, 2, 3, 4)]), Some(vec![Ipv6Addr { bits: DB8 }]));
            assert_eq!(a.resolved_ipv4, Some(Ipv4Addr::new(1, 2, 3, 4)));
            assert_eq!((a.resolved_ipv6, a.dst_port), (Some(Ipv6Addr { bits: DB8 }), Some(443)));
            assert_eq!(a.try_match(&d, Some("CN"), None).ok(), Some(10));
            a.resolved_ipv6 = None;
            assert_eq!(a.try_match(&d, Some("CN"), None).ok(), Some(0));
            assert_eq!(a.try_match(&d, None, None).ok(), Some(99));
            let c = a.apply(c);
            assert!(matches!(c.remote_peer.host, HostName::Ip(ip) if ip == v4(1, 2, 3, 4)));
        }
        _ => panic!("addresses needed"),
    }
    let six = |bits| context(HostName::Ip(IpAddr::V6(Ipv6Addr { bits })));
    assert!(matches!(d.try_match(&six(DB8 + 5), None, true), TryMatchResult::Matched(10)));
    assert!(matches!(d.try_match(&six(5), Some("CN"), true), TryMatchResult::Matched(0)));
    assert!(matches!(d.try_match(&six(5), None, false), TryMatchResult::Matched(99)));
    match d.match_domain("x.y", true) {
        TryMatchResult::NeedAsync(a) => assert!(a.src.is_none() && a.dst_domain == "x.y"),
        _ => panic!("addresses needed"),
    }
    assert!(matches!(d.match_domain("a.b", true), TryMatchResult::Matched(10)));
}

#[derive(Clone)]
struct Fixed;

impl PeerProvider for Fixed {
    fn get_peer(&self) -> DestinationAddr {
        DestinationAddr { host: name("fixed"), port: 1 }
    }
}

#[test]
fn flows_are_redirected() {
    let c = redirect(context(name("a")), Fixed.get_peer());
    assert_eq!(c.remote_peer.port, 1);
    let h = StreamRedirectHandler { remote_peer: Fixed, next: Some(7) };
    let (next, c) = h.on_stream(context(name("a"))).unwrap();
    assert!(*next == 7 && c.remote_peer.port == 1);
    let gone: StreamRedirectHandler<Fixed, u8> = StreamRedirectHandler { remote_peer: Fixed, next: None };
    assert!(gone.on_stream(context(name("a"))).is_none());
    let f = StreamRedirectOutboundFactory { remote_peer: Fixed, next: Some(7) };
    assert_eq!(f.create_outbound(context(name("a"))).ok().unwrap().1.remote_peer.port, 1);
    let f: StreamRedirectOutboundFactory<Fixed, u8> =
        StreamRedirectOutboundFactory { remote_peer: Fixed, next: None };
    assert!(matches!(f.create_outbound(context(name("a"))), Err(FlowError::NoOutbound)));
    let d = DatagramSessionRedirectHandler { remote_peer: Fixed, next: Some(7) };
    let (next, session, c) = d.on_session("lower", context(name("a"))).unwrap();
    assert!(*next == 7 && session.lower == "lower" && c.remote_peer.port == 1);
    let to = session.send_to(DestinationAddr { host: name("x"), port: 9 });
    assert_eq!(to.port, 1);
    let d = DatagramSessionRedirectFactory { remote_peer: Fixed, next: Some(7) };
    assert_eq!(d.bind(context(name("a"))).ok().unwrap().1.remote_peer.port, 1);
    assert_eq!(d.on_bound("lower").lower, "lower");
    let d: DatagramSessionRedirectFactory<Fixed, u8> =
        DatagramSessionRedirectFactory { remote_peer: Fixed, next: None };
    assert!(matches!(d.bind(context(name("a"))), Err(FlowError::NoOutbound)));
}

#[test]
fn names_are_resolved_smartly() {
    let p = ProxyPeerProvider { host: "h".to_string(), port: 3 };
    assert!(matches!(p.get_peer().host, HostName::DomainName(n) if n == "h"));
    let p = ProxyPeerProvider { host: "1.1.1.1".to_string(), port: 3 };
    assert!(matches!(p.get_peer().host, HostName::Ip(_)));
    let r = create_smart_resolver::<u8>("h".to_string(), 3, vec!["qq.com".to_string()]);
    assert_eq!(r.lookup(&context(name("im.qq.com"))), Some("im.qq.com:443".to_string()));
    assert_eq!(r.lookup(&context(name("x.y"))), None);
    assert_eq!(r.lookup(&context(HostName::Ip(v4(1, 1, 1, 1)))), None);
    let c = resolved(context(name("im.qq.com")), Some(v4(2, 2, 2, 2)));
    assert!(matches!(c.remote_peer.host, HostName::Ip(ip) if ip == v4(2, 2, 2, 2)));
    let c = resolved(context(name("im.qq.com")), None);
    assert!(matches!(c.remote_peer.host, HostName::DomainName(_)));
}

#[test]
fn destinations_are_resolved_or_kept() {
    let ips = vec![Ipv4Addr::new(1, 2, 3, 4), Ipv4Addr::new(5, 6, 7, 8)];
    let d = try_resolve_forward(Resolved::V4(Some(ips)), "a".to_string(), 5);
    assert!(matches!(d.host, HostName::Ip(ip) if ip == v4(1, 2, 3, 4)) && d.port == 5);
    let d = try_resolve_forward(Resolved::V4(Some(vec![])), "a".to_string(), 5);
    assert!(matches!(&d.host, HostName::DomainName(n) if n == "a"));
    let d = try_resolve_forward(Resolved::V6(None), "a".to_string(), 5);
    assert!(matches!(&d.host, HostName::DomainName(n) if n == "a"));
}

#[test]
fn families_have_their_outbounds() {
    let f = DualStackOutboundFactory::new(4, Some(6));
    assert_eq!(*f.create_outbound(&context(HostName::Ip(v4(1, 1, 1, 1)))), 4);
    assert_eq!(*f.create_outbound(&context(HostName::Ip(IpAddr::V6(Ipv6Addr { bits: 1 })))), 6);
    let f = DualStackOutboundFactory::new(4, None);
    assert_eq!(*f.create_outbound(&context(HostName::Ip(IpAddr::V6(Ipv6Addr { bits: 1 })))), 4);
    let d = DropHandler::new(Some(1));
    let (next, s) = d.on_stream("stream").unwrap();
    assert!(*next == 1 && !s.tx_closed && s.lower == "stream");
    assert!(DropHandler::<u8>::new(None).on_stream(()).is_none());
}

fn answer() -> Vec<u8> {
    let mut b = vec![0x12, 0x34, 0x81, 0x80, 0, 1, 0, 2, 0, 0, 0, 0];
    b.extend(b"\x01a\x01b\x00\x00\x01\x00\x01");
    b.extend(b"\x01a\x01b\x00\x00\x01\x00\x01\x00\x00\x00\x3c\x00\x04\x01\x02\x03\x04");
    b.extend(b"\x01c\x00\x00\x10\x00\x01\x00\x00\x00\x3c\x00\x02hi");
    b
}

#[test]
fn answers_are_taken_apart() {
    let b = answer();
    let h = parse_header(&b, b.len()).unwrap();
    assert_eq!((h.id, h.flags, h.questions, h.answers), (0x1234, 0x8180, 1, 2));
    assert!(parse_header(&b, 11).is_none());
    assert_eq!(parse_domain_name(&b, 12), Some(("a.b".to_string(), 17)));
    let (q, at) = read_questions(&b, 1).unwrap();
    assert_eq!((q[0].name.as_str(), q[0].qtype, q[0].qclass, at), ("a.b", 1, 1, 21));
    let (a, end) = read_answers(&b, at, 2).unwrap();
    assert_eq!(end, b.len());
    assert_eq!((a[0].name.as_str(), a[0].ttl, a[0].rdlength), ("a.b", 60, 4));
    assert!(matches!(&a[0].data, ProbeData::V4(v) if v == &vec![1, 2, 3, 4]));
    assert!(matches!(&a[1].data, ProbeData::Raw(v) if v == b"hi"));
    assert!(read_question(&b, b.len()).is_none());
    assert!(read_answer(&b, b.len() - 1).is_none());
    assert_eq!((record_name(28), class_name(1)), ("AAAA", "IN"));
}
