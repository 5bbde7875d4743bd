use proxy::deps::dns_message::{DnsQuestion, DnsRequest};
use proxy::deps::dns_proto::AnswerData;
use proxy::dns_server::datagram::{
    load_reverse, note_all, CacheEntry, DnsExchange, DnsReply, DnsServer, DnsStep, ForwardCache,
    SavedCaches,
};
use proxy::dns_server::CacheWriter;
use proxy::fakeip::FakeIp;
use proxy::flow::HostName;
use proxy::host_resolver::caching_resolver::CachingResolver;
use proxy::host_resolver::dns_packet_parser::{
    answer_data, dns_query_to_doh_params, get_record_type_name, json_to_dns_message,
    parse_dns_query, question_type_of, response_code_of, DnsQueryInfo,
};
use proxy::host_resolver::doh_adapter::{
    build_message, is_json_api, DohDatagramAdapterFactory, DohStep, DohTxState,
};
use proxy::net::{IpAddr, Ipv4Addr, Ipv6Addr};
use proxy::tun::exchange_with_resolver::{exchange_with_resolver, reply_with, DNSError};

fn ip(a: u8, b: u8, c: u8, d: u8) -> Ipv4Addr {
    Ipv4Addr::new(a, b, c, d)
}

fn query(qtype: u8) -> Vec<u8> {
    let mut q = vec![0x12, 0x34, 1, 0, 0, 1, 0, 0, 0, 0, 0, 0];
    q.extend(b"\x07Example\x03com\x00");
    q.extend([0, qtype, 0, 1]);
    q
}

fn nothing() -> SavedCaches {
    SavedCaches { reverse_v4: None, reverse_v6: None, forward_v4: None, forward_v6: None }
}

#[test]
fn queries_are_read() {
    let q = parse_dns_query(&query(28)).unwrap();
    assert_eq!((q.domain.as_str(), q.query_type, q.dns_id), ("example.com.", 28, 0x1234));
    assert_eq!(dns_query_to_doh_params(&q), "name=example.com.&type=AAAA");
    assert!(parse_dns_query(&[1, 2, 3]).is_none());
    let empty = [0, 1, 1, 0, 0, 0, 0, 0, 0, 0, 0, 0];
    assert!(parse_dns_query(&empty).is_none());
}

#[test]
fn record_types_have_names() {
    let names = [(1, "A"), (2, "NS"), (5, "CNAME"), (6, "SOA"), (12, "PTR"), (15, "MX"),
        (16, "TXT"), (28, "AAAA"), (99, "OTHER")];
    for (t, n) in names {
        assert_eq!(get_record_type_name(t), n);
    }
    assert_eq!([response_code_of(3), response_code_of(6)], [3, 2]);
    assert_eq!([question_type_of(28), question_type_of(5), question_type_of(16)], [28, 5, 1]);
    assert!(matches!(answer_data(1, Some(7), None, None), Some(AnswerData::A(7))));
    assert!(matches!(answer_data(28, None, Some(7), None), Some(AnswerData::Aaaa(7))));
    assert!(answer_data(1, None, Some(7), None).is_none());
    assert!(answer_data(16, Some(7), Some(7), Some("x".to_string())).is_none());
}

#[test]
fn json_answers_become_messages() {
    let text = "{\"Status\":0,\"Question\":[{\"name\":\"a.b.\",\"type\":1}],\"Answer\":[{\"name\":\"a.b.\",\"type\":1,\"TTL\":60,\"data\":\"1.2.3.4\"},{\"name\":\"a.b.\",\"type\":16,\"TTL\":60,\"data\":\"x\"}]}";
    let m = json_to_dns_message(text, 0xabcd).unwrap();
    assert_eq!(&m[..12], &[0xab, 0xcd, 0x81, 0x80, 0, 1, 0, 1, 0, 0, 0, 0]);
    assert_eq!(&m[12..21], b"\x01a\x01b\x00\x00\x01\x00\x01");
    assert_eq!(&m[m.len() - 10..], &[0, 0, 0, 60, 0, 4, 1, 2, 3, 4]);
    let m = json_to_dns_message("{\"Status\":3}", 1).unwrap();
    assert_eq!(m, vec![0, 1, 0x81, 0x83, 0, 0, 0, 0, 0, 0, 0, 0]);
    assert!(json_to_dns_message("not json", 1).is_none());
}

#[test]
fn the_writer_of_the_caches_waits() {
    let mut w = CacheWriter::new();
    assert_eq!(w.delay_secs, 3600);
    w.on_notified();
    assert_eq!(w.delay_secs, 3);
    assert!(w.on_elapsed(true));
    assert_eq!(w.delay_secs, 3600);
    assert!(!w.on_elapsed(false));
}

#[test]
fn entries_expire() {
    let mut c: ForwardCache<Ipv4Addr> = ForwardCache::new();
    let a = "a.".to_string();
    c.update(a.clone(), &[ip(1, 1, 1, 1), ip(2, 2, 2, 2)], 10, 100);
    assert_eq!(c.lookup(&a, 109), Some(vec![ip(1, 1, 1, 1), ip(2, 2, 2, 2)]));
    assert_eq!(c.lookup(&a, 110), None);
    assert_eq!(c.lookup(&"b.".to_string(), 100), None);
    let saved = vec![(a.clone(), vec![
        CacheEntry { value: ip(1, 1, 1, 1), expires_at: 50 },
        CacheEntry { value: ip(2, 2, 2, 2), expires_at: 150 },
    ])];
    let c = ForwardCache::load(saved, 100);
    assert_eq!(c.lookup(&a, 10), Some(vec![ip(2, 2, 2, 2)]));
}

#[test]
fn names_of_addresses() {
    let saved = vec![(1, "a".to_string()), (2, "b".to_string())];
    let mut c = load_reverse(&saved);
    assert!(note_all(&mut c, &vec![3], &"c".to_string()));
    assert!(!note_all(&mut c, &vec![1], &"a".to_string()));
    assert!(note_all(&mut c, &vec![1], &"z".to_string()));
    assert!(!note_all(&mut c, &vec![1], &"a".to_string()));
    let mut s = DnsServer::new(60, nothing(), 0);
    let mut ex = DnsExchange::begin(&query(1)).unwrap();
    s.on_resolved_v4(&mut ex, Some(vec![ip(0, 0, 0, 9)]), 0);
    assert!(ex.notify);
    let (v4, v6) = s.saved_names();
    assert_eq!(v4, vec![(9, "example.com.".to_string())]);
    assert!(v6.is_empty());
}

#[test]
fn an_exchange_is_answered() {
    let mut s = DnsServer::new(60, nothing(), 0);
    let q = query(1);
    let mut ex = DnsExchange::begin(&q).unwrap();
    assert!(matches!(s.on_query(&mut ex, 100), DnsStep::ResolveV4(n) if n == "example.com."));
    s.on_resolved_v4(&mut ex, Some(vec![ip(1, 2, 3, 4)]), 100);
    assert!(matches!(s.on_query(&mut ex, 100), DnsStep::Finished));
    let r = s.respond(&q, &ex).unwrap();
    assert_eq!(&r[..12], &[0x12, 0x34, 0x81, 0, 0, 1, 0, 1, 0, 0, 0, 0]);
    assert_eq!(&r[12..29], &q[12..29]);
    assert_eq!(&r[r.len() - 10..], &[0, 0, 0, 60, 0, 4, 1, 2, 3, 4]);
    // The answer is in the cache now.
    let mut ex = DnsExchange::begin(&q).unwrap();
    assert!(matches!(s.on_query(&mut ex, 159), DnsStep::Again));
    assert_eq!(ex.answers, vec![(0, IpAddr::V4(ip(1, 2, 3, 4)))]);
    let mut ex = DnsExchange::begin(&q).unwrap();
    assert!(matches!(s.on_query(&mut ex, 160), DnsStep::ResolveV4(_)));
    assert_eq!(s.lookup_ipv4_cache(&"example.com.".to_string(), 159), Some(vec![ip(1, 2, 3, 4)]));
}

#[test]
fn failures_are_answered_too() {
    let mut s = DnsServer::new(60, nothing(), 0);
    let q = query(28);
    let mut ex = DnsExchange::begin(&q).unwrap();
    assert!(matches!(s.on_query(&mut ex, 1), DnsStep::ResolveV6(_)));
    s.on_resolved_v6(&mut ex, None, 1);
    let r = s.respond(&q, &ex).unwrap();
    assert_eq!(r[3] & 15, 3);
    let q = query(16);
    let mut ex = DnsExchange::begin(&q).unwrap();
    assert!(matches!(s.on_query(&mut ex, 1), DnsStep::Again));
    assert_eq!(s.respond(&q, &ex).unwrap()[3] & 15, 4);
    assert!(DnsExchange::begin(&[0]).is_none());
    s.update_ipv6_cache("x.".to_string(), &[Ipv6Addr { bits: 7 }], 5, 10);
    assert_eq!(s.lookup_ipv6_cache(&"x.".to_string(), 14), Some(vec![Ipv6Addr { bits: 7 }]));
}

#[test]
fn options_come_back_in_some_order() {
    let mut s = DnsServer::new(60, nothing(), 0);
    let mut q = query(1);
    q[11] = 1;
    let front = q.len();
    let options: [&[u8]; 3] = [b"\x00\x0a\x00\x02ab", b"\x00\x0f\x00\x01c", b"\xff\x00\x00\x00"];
    let rdata: Vec<u8> = options.concat();
    q.extend([0, 0, 41, 0x10, 0, 0, 0, 0, 0, 0, rdata.len() as u8]);
    q.extend(&rdata);
    let mut ex = DnsExchange::begin(&q).unwrap();
    assert!(matches!(s.on_query(&mut ex, 1), DnsStep::ResolveV4(_)));
    s.on_resolved_v4(&mut ex, Some(vec![ip(1, 2, 3, 4)]), 1);
    let r = s.respond(&q, &ex).unwrap();
    assert_eq!(&r[..12], &[0x12, 0x34, 0x81, 0, 0, 1, 0, 1, 0, 0, 0, 1]);
    let at = r.len() - rdata.len();
    assert_eq!(&r[at - 11..at], &q[front..front + 11]);
    let mut rest = &r[at..];
    let mut found = 0;
    while !rest.is_empty() {
        let option = options.iter().find(|o| rest.starts_with(o)).unwrap();
        rest = &rest[option.len()..];
        found += 1;
    }
    assert_eq!(found, 3);
}

fn begun(q: &[u8], answers: usize) -> DnsExchange {
    let mut ex = DnsExchange::begin(q).unwrap();
    let mut s = DnsServer::new(60, nothing(), 0);
    assert!(matches!(s.on_query(&mut ex, 1), DnsStep::ResolveV4(_)));
    s.on_resolved_v4(&mut ex, Some(vec![ip(1, 2, 3, 4); answers]), 1);
    ex
}

#[test]
fn responses_that_fit_are_sent() {
    let s = DnsServer::new(60, nothing(), 0);
    let plain = query(1);
    let mut extended = plain.clone();
    extended[11] = 1;
    extended.extend([0, 0, 41, 0x10, 0, 0, 0, 0, 0, 0, 0]);
    // The header and the question take 29 bytes, the extension 11, and an answer 13 + 14.
    for answers in [1, 300, 2425] {
        match s.reply(&extended, &begun(&extended, answers)) {
            DnsReply::Send(b) => {
                assert_eq!(b[..4], [0x12, 0x34, 0x81, 0]);
                assert_eq!(b[6..8], (answers as u16).to_be_bytes());
                assert_eq!(b.len(), 29 + 16 * answers + 11);
            }
            _ => panic!("{answers} answers fit"),
        }
    }
    assert!(matches!(s.reply(&extended, &begun(&extended, 2426)), DnsReply::TooLong));
    // Where the answers come last, those that fit are sent, and the message says so.
    match s.reply(&plain, &begun(&plain, 5000)) {
        DnsReply::Send(b) => assert_eq!(b[2], 0x83),
        _ => panic!("the question fits"),
    }
    assert!(matches!(s.reply(&[0, 1, 2], &begun(&plain, 1)), DnsReply::Nothing));
}

#[test]
fn the_latest_update_counts() {
    let mut s = DnsServer::new(60, nothing(), 0);
    let (x, y) = ("x.".to_string(), "y.".to_string());
    s.update_ipv4_cache(y.clone(), &[ip(9, 9, 9, 9)], 100, 0);
    s.update_ipv4_cache(x.clone(), &[ip(1, 1, 1, 1)], 100, 0);
    s.update_ipv4_cache(x.clone(), &[ip(2, 2, 2, 2), ip(3, 3, 3, 3)], 5, 10);
    assert_eq!(s.lookup_ipv4_cache(&x, 14), Some(vec![ip(2, 2, 2, 2), ip(3, 3, 3, 3)]));
    assert_eq!(s.lookup_ipv4_cache(&x, 15), None);
    s.update_ipv4_cache(x.clone(), &[], 5, 20);
    assert_eq!(s.lookup_ipv4_cache(&x, 21), None);
    assert_eq!(s.lookup_ipv4_cache(&y, 21), Some(vec![ip(9, 9, 9, 9)]));
}

#[test]
fn many_answers_with_short_names_fit() {
    let answer = "{\"name\":\"a.b.\",\"type\":1,\"TTL\":60,\"data\":\"1.2.3.4\"}";
    let text = format!(
        "{{\"Status\":0,\"Question\":[{{\"name\":\"a.b.\",\"type\":1}}],\"Answer\":[{}]}}",
        vec![answer; 300].join(",")
    );
    // The question takes 5 + 4 bytes, and an answer at most 6 + 14.
    let m = json_to_dns_message(&text, 7).unwrap();
    assert_eq!(m[..8], [0, 7, 0x81, 0x80, 0, 1, 1, 0x2c]);
}

#[test]
fn messages_for_two_queries_differ_in_their_ids() {
    let text = "{\"Status\":9,\"Question\":[{\"name\":\"a.b.\",\"type\":28}]}";
    let (x, y) = (json_to_dns_message(text, 1).unwrap(), json_to_dns_message(text, 0xfffe).unwrap());
    assert_eq!((&x[..4], &y[..4]), (&[0, 1, 0x81, 0x82][..], &[0xff, 0xfe, 0x81, 0x82][..]));
    assert_eq!(x[2..], y[2..]);
}

#[test]
fn resolved_names_are_remembered() {
    let mut r = CachingResolver::new(DnsServer::new(60, nothing(), 0), "fallback");
    let a = "a.".to_string();
    assert_eq!(r.resolve_ipv4(&a, 0), Err(&"fallback"));
    assert!(r.on_ipv4(a.clone(), Some(&[ip(1, 1, 1, 1)]), 0));
    assert_eq!(r.resolve_ipv4(&a, 3599), Ok(vec![ip(1, 1, 1, 1)]));
    assert_eq!(r.resolve_ipv4(&a, 3600), Err(&"fallback"));
    assert!(!r.on_ipv6(a.clone(), None, 0));
    assert_eq!(r.resolve_ipv6(&a, 0), Err(&"fallback"));
}

#[test]
fn queries_over_https() {
    assert!(is_json_api("/resolve") && is_json_api("/x/resolver") && !is_json_api("/dns-query"));
    let f = DohDatagramAdapterFactory::from_text("https://8.8.8.8/dns-query").unwrap();
    assert!(DohDatagramAdapterFactory::from_text("https://[").is_none());
    let mut s = f.bind();
    let from = s.recv_from();
    assert!(matches!(from.host, HostName::Ip(IpAddr::V4(a)) if a == ip(1, 1, 1, 1)) && from.port == 53);
    assert_eq!(s.poll_send_ready(false), DohStep::Pending);
    assert_eq!(s.poll_send_ready(true), DohStep::Ready);
    let q = query(1);
    let r = s.send_to(q.clone());
    assert!(!r.get);
    assert_eq!((r.uri.as_str(), r.accept.as_str()), ("https://8.8.8.8/dns-query", "application/dns-message"));
    assert_eq!(r.content_length.as_deref(), Some("29"));
    assert_eq!(r.body, q);
    s.on_sent(true);
    assert_eq!(s.poll_send_ready(true), DohStep::PollResponse);
    s.on_response(true);
    assert_eq!(s.poll_send_ready(true), DohStep::PollData);
    s.on_chunk(&[1, 2]);
    s.on_chunk(&[3]);
    assert_eq!(s.on_end(), vec![1, 2, 3]);
    s.send_to(q);
    s.on_response(false);
    assert!(!s.open && matches!(s.tx_state, DohTxState::Idle));
}

#[test]
fn queries_as_json_over_https() {
    let f = DohDatagramAdapterFactory::from_text("https://dns.google/resolve").unwrap();
    assert_eq!(f.url.host.as_deref(), Some("dns.google"));
    let mut s = f.bind();
    let r = s.send_to(query(1));
    assert!(r.get && r.body.is_empty());
    assert_eq!(r.uri, "https://dns.google/resolve?name=example.com.&type=A");
    assert_eq!(r.accept, "application/dns-json");
    s.on_response(true);
    s.on_chunk(b"{\"Status\":3}");
    assert_eq!(s.on_end(), vec![0x12, 0x34, 0x81, 0x83, 0, 0, 0, 0, 0, 0, 0, 0]);
    s.send_to(query(1));
    s.on_response(true);
    s.on_chunk(b"oops");
    s.on_data_error();
    assert!(!s.open);
    assert_eq!(s.poll_send_ready(false), DohStep::Ready);
    assert_eq!(build_message(&s.url, vec![1], Some(vec![2])), vec![2]);
    assert_eq!(build_message(&s.url, vec![1], None), vec![1]);
}

fn request(qtype: u16, questions: usize) -> DnsRequest {
    let mut q = Vec::new();
    for _ in 0..questions {
        q.push(DnsQuestion { name: "a.b.".to_string(), qtype });
    }
    DnsRequest { id: 5, op_code: 0, recursion_desired: true, checking_disabled: false, questions: q }
}

#[test]
fn fake_addresses_are_handed_out() {
    let mut f = FakeIp::new([11, 17], [0xfc; 14], None);
    let r = exchange_with_resolver(&mut f, &request(1, 1)).ok().unwrap();
    assert_eq!((r.id, r.response_code, r.authoritative), (5, 0, true));
    assert_eq!(r.answers.len(), 1);
    let addr = Ipv4Addr { bits: r.answers[0].1 };
    assert_eq!(r.answers[0].0, 60);
    assert_eq!(f.lookup_domain_by_fake_ip(IpAddr::V4(addr)), Some("a.b".to_string()));
    let r = exchange_with_resolver(&mut f, &request(28, 1)).ok().unwrap();
    assert_eq!(r.response_code, 5);
    match exchange_with_resolver(&mut f, &request(1, 0)) {
        Err(e) => assert_eq!(e.message(), "Invalid query operation: malformed query message"),
        Ok(_) => panic!("no question"),
    }
    match reply_with(&request(1, 1), Err("gone".to_string())) {
        Err(DNSError::QueryFailed(m)) => assert_eq!(m, "gone"),
        _ => panic!("failed"),
    }
    let r = reply_with(&request(1, 1), Ok(vec![])).ok().unwrap();
    assert_eq!((r.response_code, r.answers.len()), (3, 0));
}

#[test]
fn parameters_of_a_query() {
    let q = DnsQueryInfo { domain: "x.".to_string(), query_type: 257, dns_id: 0 };
    assert_eq!(dns_query_to_doh_params(&q), "name=x.&type=OTHER");
}
