use proxy::flow::error::FlowError;
use proxy::flow::{DestinationAddr, FlowContext, HostName};
use proxy::net::{IpAddr, Ipv4Addr, Ipv6Addr, SocketAddr};
use proxy::shadowsocks::util::{parse_dest, write_dest};
use proxy::socks5::{
    answer_name_empty, get_cred_req, increase_num_buf, negotiate, openssl_bytes_to_key,
    perform_handshake, request_too_long, serve_handshake, NegotiationStatus, PerformStatus,
    ServeStatus, Socks5Handler, Socks5Outbound,
};
use proxy::socks5_associate::{
    handle_socks5_handshake, keep_tcp_alive, AssociateStatus, Socks5UdpAssociateHandler,
    UdpAssociations,
};
use proxy::socks5_udp::{Socks5UdpHandler, TransparentSession};

fn v4(a: u8, b: u8, c: u8, d: u8) -> IpAddr {
    IpAddr::V4(Ipv4Addr::new(a, b, c, d))
}

fn domain(name: &str, port: u16) -> DestinationAddr {
    DestinationAddr { host: HostName::DomainName(name.to_string()), port }
}

fn is_domain(d: &DestinationAddr, name: &str, port: u16) -> bool {
    match &d.host {
        HostName::DomainName(n) => n == name && d.port == port,
        HostName::Ip(_) => false,
    }
}

fn is_ip(d: &DestinationAddr, ip: IpAddr, port: u16) -> bool {
    match &d.host {
        HostName::Ip(i) => *i == ip && d.port == port,
        HostName::DomainName(_) => false,
    }
}

#[test]
fn key_of_a_password() {
    // MD5("password") and MD5(MD5("password") + "password").
    let key = openssl_bytes_to_key::<32>(b"password");
    assert_eq!(
        key,
        [
            0x5f, 0x4d, 0xcc, 0x3b, 0x5a, 0xa7, 0x65, 0xd6, 0x1d, 0x83, 0x27, 0xde, 0xb8, 0x82,
            0xcf, 0x99, 0x2b, 0x95, 0x99, 0x0a, 0x91, 0x51, 0x37, 0x4a, 0xbd, 0x8f, 0xf8, 0xc5,
            0xa7, 0xa0, 0xfe, 0x08
        ]
    );
    let short = openssl_bytes_to_key::<16>(b"password");
    assert_eq!(&key[..16], &short[..]);
}

#[test]
fn number_in_a_buffer_goes_up() {
    let mut b = [0xff, 0x00, 0x00];
    increase_num_buf(&mut b);
    assert_eq!(b, [0x00, 0x01, 0x00]);
    let mut all = [0xff, 0xff];
    increase_num_buf(&mut all);
    assert_eq!(all, [0x00, 0x00]);
    let mut one = [0x07];
    increase_num_buf(&mut one);
    assert_eq!(one, [0x08]);
}

#[test]
fn credentials_as_a_request() {
    assert_eq!(get_cred_req((b"me", b"pass")), vec![2, b'm', b'e', 4, b'p', b'a', b's', b's']);
}

#[test]
fn destinations_are_read_back() {
    let mut out: Vec<u8> = Vec::new();
    write_dest(&mut out, &domain("a.b", 443));
    assert_eq!(out, vec![3, 3, b'a', b'.', b'b', 1, 0xbb]);
    let (dest, n) = parse_dest(&out).unwrap();
    assert!(is_domain(&dest, "a.b", 443));
    assert_eq!(n, 7);

    let mut out: Vec<u8> = Vec::new();
    write_dest(&mut out, &DestinationAddr { host: HostName::Ip(v4(1, 2, 3, 4)), port: 80 });
    assert_eq!(out, vec![1, 1, 2, 3, 4, 0, 80]);
    assert!(is_ip(&parse_dest(&out).unwrap().0, v4(1, 2, 3, 4), 80));

    let ip6 = IpAddr::V6(Ipv6Addr { bits: 1 });
    let mut out: Vec<u8> = Vec::new();
    write_dest(&mut out, &DestinationAddr { host: HostName::Ip(ip6), port: 53 });
    assert_eq!(out.len(), 19);
    assert!(is_ip(&parse_dest(&out).unwrap().0, ip6, 53));
    assert!(parse_dest(&out[..18]).is_none());
}

#[test]
fn negotiation_without_credentials() {
    let r = negotiate(None, &[5, 1]);
    assert!(matches!(r.status, NegotiationStatus::NeedData));
    let r = negotiate(None, &[5, 1, 0]);
    assert_eq!(r.reply, vec![5, 0]);
    assert!(matches!(r.status, NegotiationStatus::Ready { consumed: 3, matched: true }));
    let r = negotiate(None, &[4, 1, 0]);
    assert!(matches!(r.status, NegotiationStatus::Failed));
}

#[test]
fn a_connect_request_is_served() {
    let mut input = vec![5, 1, 0];
    input.extend([5, 1, 0, 3, 3, b'a', b'.', b'b', 1, 0xbb]);
    assert!(!request_too_long(None, &input));
    let r = serve_handshake(None, &input);
    match r.status {
        ServeStatus::Done { dest, consumed } => {
            assert!(is_domain(&dest, "a.b", 443));
            assert_eq!(consumed, input.len());
        }
        _ => panic!("not served"),
    }
    assert_eq!(&r.reply[..2], &[5, 0]);
    assert_eq!(&r.reply[2..4], &[5, 0]);

    let r = serve_handshake(None, &input[..input.len() - 1]);
    assert!(matches!(r.status, ServeStatus::NeedData));
}

#[test]
fn credentials_are_compared() {
    // The request of these credentials is 1, 2, 2, 9, 0: itself a user name of two bytes and an
    // empty password behind the version.
    let cred = get_cred_req((&[2], &[9, 0]));
    assert_eq!(cred, vec![1, 2, 2, 9, 0]);
    let mut good = vec![5, 1, 2, 1, 2, 2, 9, 0];
    let r = negotiate(Some(&cred), &good);
    assert_eq!(r.reply, vec![5, 2, 1, 0]);
    assert!(matches!(r.status, NegotiationStatus::Ready { consumed: 8, matched: true }));
    good.extend([5, 1, 0, 1, 1, 2, 3, 4, 0, 80]);
    let r = serve_handshake(Some(&cred), &good);
    assert_eq!(r.reply, vec![5, 2, 1, 0, 5, 0, 0, 1, 0, 0, 0, 0, 0, 0]);
    assert!(matches!(r.status, ServeStatus::Done { consumed: 18, .. }));

    let bad = [5, 1, 2, 1, 2, 2, 8, 0];
    let r = negotiate(Some(&cred), &bad);
    assert_eq!(r.reply, vec![5, 2, 1, 0xff]);
    assert!(matches!(r.status, NegotiationStatus::Ready { consumed: 8, matched: false }));
    let r = negotiate(Some(&cred), &[5, 1, 2, 7, 2]);
    assert_eq!(r.reply, vec![5, 2]);
    assert!(matches!(r.status, NegotiationStatus::Failed));
    let r = negotiate(Some(&cred), &[5, 1, 0]);
    assert_eq!(r.reply, vec![5, 0xff]);
    assert!(matches!(r.status, NegotiationStatus::Failed));
    let r = negotiate(Some(&cred), &[5, 0]);
    assert_eq!(r.reply, vec![5, 0xff]);
}

#[test]
fn other_commands_are_not_served() {
    let mut input = vec![5, 1, 0];
    input.extend([5, 2, 0, 1, 1, 2, 3, 4, 0, 80]);
    let r = serve_handshake(None, &input);
    assert!(matches!(r.status, ServeStatus::Failed(FlowError::UnexpectedData)));
}

#[test]
fn client_and_server_understand_each_other() {
    let server = Socks5Handler::new(None, ());
    let client = Socks5Outbound::new(None, ());
    let dest = domain("example.com", 8080);
    let mut to_client: Vec<u8> = Vec::new();
    for _ in 0..8 {
        let c = client.on_data(&dest, &to_client).unwrap();
        let s = server.on_data(&c.sent).unwrap();
        to_client = s.reply.clone();
        if let (PerformStatus::Done { consumed }, ServeStatus::Done { dest, .. }) =
            (&client.on_data(&domain("example.com", 8080), &to_client).unwrap().status, &s.status)
        {
            assert!(is_domain(dest, "example.com", 8080));
            assert_eq!(*consumed, to_client.len());
            return;
        }
    }
    panic!("no end");
}

#[test]
fn a_refusing_server_ends_the_client() {
    assert!(!answer_name_empty(None, &[5, 0xff]));
    let r = perform_handshake(None, &domain("a.b", 80), &[5, 0xff]);
    assert!(matches!(r.status, PerformStatus::Failed(_)));
}

#[test]
fn a_failed_handshake_ends_before_the_answer() {
    let client = Socks5Outbound::new(None, ());
    let r = client.on_data(&domain("a.b", 80), &[5, 0, 5, 1, 0, 3, 0, 0]).unwrap();
    assert!(matches!(r.status, PerformStatus::Failed(FlowError::UnexpectedData)));
    assert!(client.on_data(&domain("a.b", 80), &[5, 0, 5, 0, 0, 3, 0, 0]).is_none());
    let client = Socks5Outbound::new(Some((b"u", b"p")), ());
    let r = client.on_data(&domain("a.b", 80), &[5, 2, 1, 1, 5, 0, 0, 3, 0, 0]).unwrap();
    assert!(matches!(r.status, PerformStatus::Failed(FlowError::UnexpectedData)));
    assert!(client.on_data(&domain("a.b", 80), &[5, 2, 1, 0, 5, 0, 0, 3, 0, 0]).is_none());
}

#[test]
fn a_served_flow_gets_its_destination() {
    let context = FlowContext::new(SocketAddr::new(v4(10, 0, 0, 1), 9), domain("old", 1));
    let r = Socks5Handler::<()>::destined(context, domain("new", 2));
    assert!(is_domain(&r.remote_peer, "new", 2));
    assert_eq!(r.local_peer, SocketAddr::new(v4(10, 0, 0, 1), 9));
}

#[test]
fn a_udp_association_is_made() {
    let relay = SocketAddr::new(v4(127, 0, 0, 1), 1083);
    let handler = Socks5UdpAssociateHandler::new(None, (), relay);
    let input = [5, 1, 0, 5, 3, 0, 1, 10, 0, 0, 2, 0x1f, 0x90];
    let r = handler.on_data(&input);
    match r.status {
        AssociateStatus::Done { client_addr, .. } => {
            assert_eq!(client_addr, SocketAddr::new(v4(10, 0, 0, 2), 8080));
        }
        _ => panic!("no association"),
    }
    let r = handle_socks5_handshake(None, relay, &input[..5]);
    assert!(matches!(r.status, AssociateStatus::NeedData));
    assert!(keep_tcp_alive(&Ok(vec![1])));
    assert!(!keep_tcp_alive(&Err(FlowError::Eof)));
}

#[test]
fn associations_are_kept_by_session() {
    let a = SocketAddr::new(v4(10, 0, 0, 2), 1);
    let mut t: UdpAssociations<u8> = UdpAssociations::new();
    t.store_udp_association(7, a, a, 1);
    t.store_udp_association(8, a, a, 2);
    t.cleanup_udp_association(7);
    assert_eq!(t.by_session.len(), 1);
    assert_eq!(t.by_session.get(&8).unwrap().session, 2);
}

#[test]
fn datagrams_are_wrapped_and_unwrapped() {
    let client = DestinationAddr { host: HostName::Ip(v4(10, 0, 0, 2)), port: 5000 };
    let mut s = TransparentSession::new();
    let packet = [0, 0, 0, 1, 8, 8, 8, 8, 0, 53, b'q'];
    let (dest, data) = s.on_recv(client, &packet).unwrap();
    assert!(is_ip(&dest, v4(8, 8, 8, 8), 53));
    assert_eq!(data, vec![b'q']);
    let back = s.send_to(&dest, b"r");
    assert_eq!(back, vec![0, 0, 0, 1, 8, 8, 8, 8, 0, 53, b'r']);
    let h = Socks5UdpHandler::new(None, 3);
    assert_eq!(h.next, 3);
}
