use bytes::BytesMut;
use proxy::conn_slot::ConnSlot;
use proxy::flow::error::FlowError;
use proxy::flow::{DestinationAddr, FlowContext, HostName, SizeHint};
use proxy::forward::stream::{
    after_outbound, after_reply, poll_both, poll_rescue, uplink_state, FirstData, FirstRead,
    Forward, ForwardEvent, ForwardNext, ForwardOp, ForwardPoll, ForwardState, Opened, StatHandle,
    StreamForwardHandler,
};
use proxy::hysteria2::codec::{
    decode_varint, encode_varint, padding, padding_for, padding_with, varint_size, Hy2CodecError,
    Hy2TcpCodec, Hy2TcpResp,
};
use proxy::hysteria2::connection::{
    auth, auth_headers, connect_tcp, needs_resolving, server_addr, AuthError, ConnectError, ConnectEvent,
    ConnectStep, HeaderField, Hy2Connection,
};
use proxy::hysteria2::{alpn_protocols, server_name, Hy2Handler, Hy2Options};
use proxy::net::{IpAddr, Ipv4Addr, Ipv6Addr, SocketAddr};
use proxy::shadowsocks::stream::{
    ChunkStep, CipherSizes, RxCryptoState, ShadowsocksStream, SizeStep,
};
use proxy::socket::tcp::{
    bind_address, dial_plan, ipv4_targets, listen_tcp, AcceptStep, DialAction, DialEvent, DialPlan,
    Dialer,
};
use proxy::socket::udp_listener::{after_send, listen_udp, InboundUdpSession, ListenVerdict};
use proxy::socket::udp_nat::{lookup_original_client, redirect_dns_request, UdpNatManager};
use proxy::tables::AddrMap;
use proxy::tcp_manager::TcpManager;
use proxy::tuic::{CongestionControl, ConnStep, Handler, HandlerOptions, UdpRelayMode};
use proxy::udp_session_manager::{
    BaseUdpSessionInfo, Socks5UdpSessionInfo, UdpSessionInfo, UdpSessionManager,
};

fn v4(a: u8, b: u8, c: u8, d: u8) -> IpAddr {
    IpAddr::V4(Ipv4Addr::new(a, b, c, d))
}

fn at(ip: IpAddr, port: u16) -> SocketAddr {
    SocketAddr::new(ip, port)
}

fn named(name: &str, port: u16) -> DestinationAddr {
    DestinationAddr { host: HostName::DomainName(name.to_string()), port }
}

#[test]
fn numbers_of_varying_length() {
    let cases: [(u64, &[u8]); 4] = [
        (37, &[0x25]),
        (15293, &[0x7b, 0xbd]),
        (494_878_333, &[0x9d, 0x7f, 0x3e, 0x7d]),
        (151_288_809_941_952_652, &[0xc2, 0x19, 0x7c, 0x5e, 0xff, 0x14, 0xe8, 0x8c]),
    ];
    for (v, bytes) in cases {
        let mut b = BytesMut::new();
        encode_varint(v, &mut b);
        assert_eq!(&b[..], bytes);
        assert_eq!(varint_size(v), bytes.len());
        b.extend_from_slice(&[9]);
        assert_eq!(decode_varint(&mut b), Some(v));
        assert_eq!(&b[..], &[9]);
        let mut short = BytesMut::from(&bytes[..bytes.len() - 1]);
        assert_eq!(decode_varint(&mut short), None);
        assert_eq!(short.len(), bytes.len() - 1);
    }
}

#[test]
fn responses_are_decoded() {
    let mut c = Hy2TcpCodec;
    let mut b = BytesMut::from(&b"\x00\x02ok\x03xyzrest"[..]);
    let r = c.decode(&mut b).unwrap().unwrap();
    assert_eq!((r.status, r.msg.as_str()), (0, "ok"));
    assert_eq!(&b[..], b"rest");
    let fails: [(&[u8], Hy2CodecError); 5] = [
        (b"", Hy2CodecError::UnexpectedEof),
        (b"\x00", Hy2CodecError::InvalidData),
        (b"\x00\x05ok", Hy2CodecError::UnexpectedEof),
        (b"\x00\x01\xff\x00", Hy2CodecError::InvalidData),
        (b"\x00\x02ok\x03x", Hy2CodecError::UnexpectedEof),
    ];
    for (bytes, e) in fails {
        let mut b = BytesMut::from(bytes);
        assert!(c.decode(&mut b).err() == Some(e));
    }
}

#[test]
fn requests_are_encoded() {
    let mut c = Hy2TcpCodec;
    let mut b = BytesMut::new();
    c.encode_padded(&named("a.b", 80), b"AA", &mut b);
    assert_eq!(&b[..], b"\x44\x01\x06a.b:80\x02AA");
    let mut b = BytesMut::new();
    assert!(c.encode(&named("a.b", 80), &mut b));
    assert_eq!(c.try_encode(&named("a.b", 80), &mut BytesMut::new()), Some(true));
    assert_eq!(&b[..9], b"\x44\x01\x06a.b:80");
    let mut rest = b.split_off(9);
    let n = decode_varint(&mut rest).unwrap() as usize;
    assert!((64..=512).contains(&n) && rest.len() == n);
    assert!(rest.iter().all(|x| *x == b'A'));
    assert_eq!(padding_for(10, 12, 5).len(), 12);
    assert_eq!(padding_for(10, 12, 6).len(), 10);
    let p = padding(256, 2048).unwrap();
    assert!((256..=2048).contains(&p.len()));
}

#[test]
fn random_numbers_pick_the_padding() {
    assert_eq!(padding_with(1, 4, Some(6)), Some(b"AAA".to_vec()));
    assert_eq!(padding_with(1, 4, None), None);
    let mut c = Hy2TcpCodec;
    let mut b = BytesMut::from(&b"x"[..]);
    assert!(!c.encode_with(&named("a.b", 80), None, &mut b));
    assert_eq!(&b[..], b"x");
    assert!(c.encode_with(&named("a.b", 80), Some(449 + 1), &mut b));
    assert_eq!(&b[..12], b"x\x44\x01\x06a.b:80\x40\x41");
    assert_eq!(&b[12..], &[b'A'; 65]);
}

#[test]
fn the_server_accepts_or_not() {
    let (missing, not_text, text) =
        (|| HeaderField::Missing, || HeaderField::NotText, || HeaderField::Text);
    assert!(auth(233, text(), text()).is_ok());
    assert!(matches!(auth(200, text(), text()), Err(AuthError::Status(200))));
    assert!(matches!(auth(233, missing(), text()), Err(AuthError::MissingCcRx)));
    assert!(matches!(auth(233, not_text(), text()), Err(AuthError::CcRxNotText)));
    assert!(matches!(auth(233, text(), missing()), Err(AuthError::MissingUdp)));
    assert!(matches!(auth(233, text(), not_text()), Err(AuthError::UdpNotText)));
    let h = auth_headers("secret", "pad");
    assert!(h.contains(&("Hysteria-Auth".to_string(), "secret".to_string())));
    assert!(h.contains(&("Hysteria-Padding".to_string(), "pad".to_string())));
    let ips = [Ipv4Addr::new(1, 1, 1, 1), Ipv4Addr::new(2, 2, 2, 2)];
    assert!(needs_resolving("a.b") && !needs_resolving("::1"));
    assert_eq!(server_addr("9.9.9.9", &ips, 1), Some(at(v4(9, 9, 9, 9), 1)));
    assert_eq!(server_addr("a.b", &ips, 1), Some(at(v4(1, 1, 1, 1), 1)));
    assert_eq!(server_addr("a.b", &[], 1), None);
}

#[test]
fn a_stream_is_opened() {
    assert!(matches!(connect_tcp(ConnectEvent::Checked { closed: false }), ConnectStep::OpenStream));
    assert!(matches!(
        connect_tcp(ConnectEvent::Checked { closed: true }),
        ConnectStep::Failed(ConnectError::Closed)
    ));
    assert!(matches!(connect_tcp(ConnectEvent::Opened), ConnectStep::SendRequest));
    assert!(matches!(connect_tcp(ConnectEvent::Sent), ConnectStep::AwaitAnswer));
    let yes = Hy2TcpResp { status: 0, msg: String::new() };
    assert!(matches!(connect_tcp(ConnectEvent::Answered(yes)), ConnectStep::Done));
    let no = Hy2TcpResp { status: 1, msg: "no".to_string() };
    assert!(matches!(
        connect_tcp(ConnectEvent::Answered(no)),
        ConnectStep::Failed(ConnectError::Rejected(r)) if r.msg == "no"
    ));
    assert!(matches!(
        connect_tcp(ConnectEvent::AnswerTimedOut),
        ConnectStep::Failed(ConnectError::AnswerTimedOut)
    ));
    let mut c = Hy2Connection::new(5);
    assert!(!c.is_closed() && c.check_open().is_ok());
    assert_eq!(c.alive_duration(9), 4);
    c.close_reason = Some("gone".to_string());
    assert!(c.is_closed() && c.check_open().is_err());
}

#[test]
fn options_of_hysteria() {
    let opts = Hy2Options {
        name: "n".to_string(),
        server: "s".to_string(),
        port: 1,
        password: "p".to_string(),
        sni: None,
        skip_cert_verify: true,
        alpn: vec![],
        disable_mtu_discovery: false,
        obfs: Some("key".to_string()),
    };
    assert_eq!(server_name(&opts), "s");
    assert_eq!(alpn_protocols(&vec![]), vec![b"h3".to_vec()]);
    assert_eq!(alpn_protocols(&vec![b"x".to_vec()]), vec![b"x".to_vec()]);
    let h: Hy2Handler<u8, ()> = Hy2Handler::new(opts, ());
    let e = h.init_endpoint();
    assert!(!e.verify_certificates && e.mtu_discovery);
    assert_eq!((e.max_idle_timeout, e.keep_alive_interval), (300, 10));
    assert_eq!(e.obfs_key, Some(b"key".to_vec()));
    assert_eq!(h.create_outbound(b""), None);
    assert_eq!(h.create_outbound(b"x"), Some(&b"x"[..]));
}

#[test]
fn one_connection_is_kept() {
    let mut s: ConnSlot<u8> = ConnSlot::new();
    assert!(s.need_reconnect(false));
    s.on_connected(Some(1));
    assert!(!s.need_reconnect(false) && s.need_reconnect(true));
    s.on_stream_error(false);
    assert_eq!(s.conn, Some(1));
    s.on_stream_error(true);
    assert_eq!(s.conn, None);
}

#[test]
fn options_of_tuic() {
    let opts = HandlerOptions {
        name: "n".to_string(),
        server: "s".to_string(),
        port: 1,
        uuid: 0,
        password: "p".to_string(),
        udp_relay_mode: UdpRelayMode::Native,
        disable_sni: true,
        alpn: vec![b"h3".to_vec(), b"x".to_vec()],
        heartbeat_interval: 1,
        reduce_rtt: true,
        request_timeout: 2,
        idle_timeout: 3,
        congestion_controller: CongestionControl::Bbr,
        max_open_stream: 4,
        gc_interval: 5,
        gc_lifetime: 6,
        send_window: 7,
        receive_window: 8,
        skip_cert_verify: false,
        max_udp_relay_packet_size: 9,
        ip: None,
        sni: None,
    };
    let mut h: Handler<u8, ()> = Handler::new(opts, ());
    let e = h.init_endpoint();
    assert!(e.verify_certificates && !e.sni);
    assert_eq!(e.alpn, vec![b"h3".to_vec(), b"x".to_vec()]);
    assert_eq!((e.max_concurrent_bidi_streams, e.send_window), (4, 7));
    assert!(matches!(h.get_conn(true), ConnStep::Connect));
    h.conn.on_connected(Some(1));
    assert!(matches!(h.get_conn(true), ConnStep::Use));
    assert!(matches!(h.get_conn(false), ConnStep::Reconnect));
    assert_eq!(h.create_outbound(b"x"), Some(&b"x"[..]));
}

#[test]
fn bytes_are_forwarded() {
    let mut f = Forward::new(ForwardState::AwatingSizeHint);
    assert!(matches!(f.start(), ForwardNext::Do(ForwardOp::RequestSize)));
    let size = ForwardEvent::Size(SizeHint::Unknown { overhead: 4 });
    match f.poll_forward_oneway(ForwardOp::RequestSize, size) {
        ForwardNext::Do(ForwardOp::GetTxBuffer(n)) => assert_eq!(n, 4100),
        _ => panic!("a buffer"),
    }
    let n = f.poll_forward_oneway(ForwardOp::GetTxBuffer(4100), ForwardEvent::Finished);
    assert!(matches!(n, ForwardNext::Do(ForwardOp::CommitRx)));
    let n = f.poll_forward_oneway(ForwardOp::CommitRx, ForwardEvent::Finished);
    assert!(matches!(n, ForwardNext::Do(ForwardOp::PollRx)));
    let n = f.poll_forward_oneway(ForwardOp::PollRx, ForwardEvent::Ended(10));
    let eof = ForwardOp::CommitTx { len: 10, eof: true };
    assert!(matches!(n, ForwardNext::Do(ForwardOp::CommitTx { len: 10, eof: true })));
    f.poll_forward_oneway(eof, ForwardEvent::Finished);
    let flush = ForwardOp::FlushTx { len: 10, eof: true };
    let n = f.poll_forward_oneway(flush, ForwardEvent::Finished);
    assert!(matches!(n, ForwardNext::Do(ForwardOp::CloseTx)));
    assert_eq!(f.written, 10);
    let n = f.poll_forward_oneway(ForwardOp::CloseTx, ForwardEvent::Finished);
    assert!(matches!(n, ForwardNext::End(ForwardPoll::Ready(Ok(())))));
}

#[test]
fn failures_end_the_forwarding() {
    let mut f = Forward::new(ForwardState::PollingRxBuf);
    let n = f.poll_forward_oneway(ForwardOp::PollRx, ForwardEvent::Failed(FlowError::Eof));
    assert!(matches!(n, ForwardNext::ReturnBuffer(FlowError::Eof)));
    let mut f = Forward::new(ForwardState::AwatingSizeHint);
    let n = f.poll_forward_oneway(ForwardOp::RequestSize, ForwardEvent::Pending);
    assert!(matches!(n, ForwardNext::Do(ForwardOp::FlushIdle)));
    let n = f.poll_forward_oneway(ForwardOp::FlushIdle, ForwardEvent::Pending);
    assert!(matches!(n, ForwardNext::End(ForwardPoll::Pending)));
    let ok = || ForwardPoll::Ready(Ok(()));
    assert!(matches!(poll_both(ok(), ok()), ForwardPoll::Ready(Ok(()))));
    assert!(matches!(poll_both(ok(), ForwardPoll::Pending), ForwardPoll::Pending));
    let bad = ForwardPoll::Ready(Err(FlowError::NoOutbound));
    assert!(matches!(poll_both(ForwardPoll::Pending, bad), ForwardPoll::Ready(Err(_))));
    assert!(matches!(poll_rescue(ok(), ForwardPoll::Pending), ForwardPoll::Ready(Ok(()))));
    assert!(matches!(poll_rescue(ForwardPoll::Pending, ok()), ForwardPoll::Pending));
}

#[test]
fn connections_are_counted() {
    let stat = StatHandle { uplink_written: 0, downlink_written: 0, tcp_connection_count: 0 };
    let mut h = StreamForwardHandler { request_timeout: 100, outbound: (), stat };
    h.on_stream();
    h.on_stream();
    h.on_stream_end();
    assert_eq!(h.stat.tcp_connection_count, 1);
    assert!(matches!(h.first_data(5), FirstData::Given));
    assert!(matches!(h.first_data(0), FirstData::Read { timeout_ms: 100 }));
    h.request_timeout = 0;
    assert!(matches!(h.first_data(0), FirstData::Nothing));
    let hint = SizeHint::AtLeast(3);
    let up = uplink_state(Some(FirstRead::NoData(hint)));
    assert!(matches!(up, ForwardState::PollingTxBuf(_)));
    assert!(matches!(uplink_state(Some(FirstRead::Data)), ForwardState::AwatingSizeHint));
    assert!(matches!(uplink_state(None), ForwardState::AwatingSizeHint));
    match after_outbound(&mut h.stat, 7, Ok(9), up) {
        Opened::Run { reply, rescue } => assert!(reply == 9 && rescue),
        Opened::CloseAndFail(_) => panic!("open"),
    }
    after_reply(&mut h.stat, 9);
    assert_eq!((h.stat.uplink_written, h.stat.downlink_written), (7, 9));
    let r = after_outbound(&mut h.stat, 0, Err(FlowError::Eof), ForwardState::AwatingSizeHint);
    assert!(matches!(r, Opened::CloseAndFail(FlowError::Eof)));
}

#[test]
fn addresses_are_dialed() {
    let name = HostName::DomainName("a.b".to_string());
    assert!(matches!(dial_plan(&name, true, true), Ok(DialPlan::ResolveBoth(n)) if n == "a.b"));
    assert!(matches!(dial_plan(&name, true, false), Ok(DialPlan::ResolveV4(_))));
    assert!(matches!(dial_plan(&name, false, true), Ok(DialPlan::ResolveV6(_))));
    assert!(matches!(dial_plan(&name, false, false), Err(FlowError::NoOutbound)));
    let ip = HostName::Ip(v4(1, 1, 1, 1));
    assert!(matches!(dial_plan(&ip, true, false), Ok(DialPlan::Address(_))));
    assert!(matches!(dial_plan(&ip, false, true), Err(FlowError::NoOutbound)));
    let d = Dialer::new();
    let (d, a) = d.on_event(DialEvent::Address);
    assert!(matches!(a, DialAction::DialAndRace));
    let (d, a) = d.unwrap().on_event(DialEvent::DelayElapsed);
    assert!(matches!(a, DialAction::NextAddress));
    let (d, a) = d.unwrap().on_event(DialEvent::NoMore);
    assert!(matches!(a, DialAction::Drain));
    let (d, a) = d.unwrap().on_event(DialEvent::Connected);
    assert!(d.is_none() && matches!(a, DialAction::Use));
    let (d, a) = Dialer::new().on_event(DialEvent::NoMore);
    assert!(d.is_none() && matches!(a, DialAction::GiveUp(_)));
}

#[test]
fn sockets_are_bound_and_accepted() {
    let private = Ipv4Addr::new(192, 168, 1, 2);
    assert_eq!(ipv4_targets(vec![private]).len(), 1);
    let here = at(v4(0, 0, 0, 0), 0);
    let b = bind_address(v4(1, 1, 1, 1), here);
    assert_eq!(b.port, 0);
    let peer = at(v4(10, 0, 0, 1), 5);
    match listen_tcp(Some(peer), true, Some(at(v4(127, 0, 0, 1), 1080))) {
        AcceptStep::Handle(c) => assert_eq!((c.local_peer, c.remote_peer.port), (peer, 1080)),
        _ => panic!("accepted"),
    }
    assert!(matches!(listen_tcp(Some(peer), false, None), AcceptStep::Stop));
}

#[test]
fn datagrams_are_listened_for() {
    let (from, listen) = (at(v4(10, 0, 0, 1), 5), at(v4(0, 0, 0, 0), 53));
    let mut t: AddrMap<u8> = AddrMap::new();
    match listen_udp(&t, from, listen) {
        ListenVerdict::Open(c) => assert_eq!((c.local_peer, c.remote_peer.port), (from, 53)),
        ListenVerdict::Deliver => panic!("a new session"),
    }
    t.insert(from, 1);
    assert!(matches!(listen_udp(&t, from, listen), ListenVerdict::Deliver));
    after_send(&mut t, from, true);
    assert!(t.contains(from));
    after_send(&mut t, from, false);
    assert!(!t.contains(from));
    let mut s = InboundUdpSession::new(from);
    assert!(s.take_ready().is_none());
    s.send_to(vec![1]);
    assert_eq!(s.take_ready(), Some((from, vec![1])));
    assert!(s.take_ready().is_none());
}

#[test]
fn clients_are_found_again() {
    let (client, local, remote) =
        (at(v4(10, 0, 0, 1), 5), at(v4(127, 0, 0, 1), 6), at(v4(8, 8, 8, 8), 53));
    let mut m = UdpNatManager::new(300);
    m.add_mapping(client, local, remote, 1000);
    assert_eq!(m.lookup_client(local, remote), Some(client));
    assert_eq!(m.lookup_client(remote, local), None);
    m.cleanup(300_999);
    assert_eq!(m.mappings.len(), 1);
    m.cleanup(301_000);
    assert_eq!(m.mappings.len(), 0);
    let dns = DestinationAddr { host: HostName::Ip(v4(8, 8, 8, 8)), port: 53 };
    let to = redirect_dns_request(&mut m, client, dns, 0);
    assert!(matches!(to.host, HostName::Ip(ip) if ip == v4(127, 0, 0, 1)));
    assert_eq!(to.port, 6353);
    let here = at(v4(127, 0, 0, 1), 0);
    assert_eq!(lookup_original_client(&m, remote, here), Some(client));
    assert_eq!(lookup_original_client(&m, here, remote), None);
    let other = redirect_dns_request(&mut m, client, named("x", 80), 0);
    assert_eq!(other.port, 80);
}

#[test]
fn sessions_expire() {
    let a = at(v4(1, 1, 1, 1), 1);
    let mut m: UdpSessionManager<BaseUdpSessionInfo<u8>> = UdpSessionManager::new(10);
    m.insert(a, BaseUdpSessionInfo { created_at: 0, last_active: 0, handler: 7 });
    assert_eq!(m.get(a, 5).unwrap().handler, 7);
    assert_eq!(m.get_mut(a, 6).unwrap().get_last_active(), 6);
    m.cleanup_expired(16);
    assert!(m.get(a, 16).is_some());
    m.cleanup_expired(27);
    assert!(m.get(a, 27).is_none());
    let base = BaseUdpSessionInfo { created_at: 3, last_active: 4, handler: 7 };
    let mut s = Socks5UdpSessionInfo { base, relay_addr: a, assoc_id: None };
    assert_eq!(s.get_created_time(), 3);
    s.update_last_active(20);
    assert!(!s.is_expired(30, 10) && s.is_expired(31, 10) && !s.is_expired(5, 0));
    assert!(m.remove(a).is_none());
}

#[test]
fn connections_are_pooled() {
    let t = at(v4(1, 1, 1, 1), 80);
    let mut m: TcpManager<u8> = TcpManager::new();
    assert!(m.get_connection(t, 0).is_none());
    assert_eq!(m.get_next_source_port(t), Some(30000));
    m.store_connection(t, 5, 30000, 0);
    assert_eq!(m.get_next_source_port(t), Some(30001));
    let c = m.get_connection(t, 1).unwrap();
    assert_eq!((c.stream, c.source_port), (5, 30000));
    assert!(m.get_connection(t, 1).is_none());
}

#[test]
fn sealed_streams() {
    let sizes = CipherSizes { key_len: 16, iv_len: 16, pre_chunk_overhead: 18, post_chunk_overhead: 16 };
    let mut s = ShadowsocksStream {
        sizes,
        rx_buf: None,
        rx_chunk_size: 0,
        rx_crypto: RxCryptoState::ReadingIv { key: vec![0; 16] },
        tx_crypto: 1,
        tx_offset: 0,
    };
    assert!(matches!(s.poll_request_size(), SizeStep::ReadIv(16)));
    s.on_iv(2);
    assert!(matches!(s.poll_request_size(), SizeStep::ReadSize(18)));
    assert!(matches!(s.on_size(None), Err(FlowError::UnexpectedData)));
    assert!(matches!(s.on_size(Some(4)), Ok(SizeHint::AtLeast(20))));
    s.commit_rx_buffer(vec![9]);
    assert!(matches!(s.poll_rx_buffer(), ChunkStep::Exact(20)));
    let read: Vec<u8> = (0..20).collect();
    let (chunk, tag) = s.chunk_and_tag(&read);
    assert_eq!((chunk.len(), tag.len()), (4, 16));
    assert_eq!(s.on_plain(Ok(Some(&[1, 2]))).ok(), Some(vec![9, 1, 2]));
    s.commit_rx_buffer(vec![9]);
    assert!(matches!(s.on_plain(Ok(None)), Err((b, FlowError::UnexpectedData)) if b == vec![9]));
    assert_eq!(s.poll_tx_buffer(10), 44);
    let mut out = s.on_tx_buffer(vec![7]);
    assert_eq!(out.len(), 19);
    out.extend([1, 2, 3]);
    assert_eq!(s.to_seal(&out).1, &[1, 2, 3]);
    let sealed = s.commit_tx_buffer(&out, &[8; 18], &[4, 5, 6], &[3; 16]);
    assert_eq!(sealed.len(), 1 + 18 + 3 + 16);
    assert_eq!((sealed[0], sealed[1], sealed[19], sealed[22]), (7, 8, 4, 3));
    assert_eq!((s.to_write(3, 5), s.to_write(5, 3)), (3, 3));
}

#[test]
fn contexts_are_made() {
    let c = FlowContext::new_af_sensitive(at(v4(1, 1, 1, 1), 1), named("a", 2));
    assert!(c.af_sensitive && c.application_layer_protocol.is_none());
    assert_eq!(FlowError::Eof.message(), "End of stream");
    assert_eq!(FlowError::NoOutbound.message(), "Cannot find a matching outbound");
    assert_eq!(FlowError::UnexpectedData.message(), "Unexpected data received");
    assert_eq!(Ipv6Addr { bits: 1 }.octets()[15], 1);
}
