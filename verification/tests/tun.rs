use std::sync::Arc;

use proxy::flow::error::FlowError;
use proxy::flow::tun::TunBufferToken;
use proxy::flow::{DestinationAddr, FlowContext, HostName, SizeHint};
use proxy::net::{IpAddr, Ipv4Addr, SocketAddr};
use proxy::tun::datagram::{TunDatagramHandler, TunDatagramSession, UdpPacket};
use proxy::tun::inbound::{get_runner, handle_inbound_udp, maybe_add_routes, tcp_context};
use proxy::tun::mactun::{
    after_deliver, after_recv, after_try, recv_result, send_result, DeviceError, DeviceStep, MacTun,
    RecvOutcome, RecvStep, SendOutcome,
};
use proxy::tun::routes::macos::{
    add_route, ask_default_gateway, configure_ipv6, get_default_gateway, get_outbound_interface,
    maybe_add_default_route, maybe_routes_clean_up, new_io_error, Tunconfig,
};
use proxy::tun::stream::{NetstackStreamAdapter, TunStreamAdapter, TunStreamFactory};
use proxy::tun::tun_device::{after_handover, after_read, ReadResult, SendError, TaskStep};
use proxy::tun::tun_stream::{
    convert_error, FlushStep, ReadEvent, RxOutcome, TunCompatFlow, TunStreamHandler,
};
use proxy::tun::tundevice::{io_loop, TunDevice};

fn v4(a: u8, b: u8, c: u8, d: u8) -> IpAddr {
    IpAddr::V4(Ipv4Addr::new(a, b, c, d))
}

fn at(ip: IpAddr, port: u16) -> SocketAddr {
    SocketAddr::new(ip, port)
}

#[test]
fn datagrams_find_their_sender() {
    let mut s = TunDatagramSession::new(handle_inbound_udp());
    let (client, server) = (at(v4(10, 0, 0, 1), 5), at(v4(8, 8, 4, 4), 53));
    let d = s.on_upstream(client, server).unwrap();
    assert!(matches!(d.host, HostName::Ip(ip) if ip == v4(8, 8, 4, 4)) && d.port == 53);
    assert!(s.on_upstream(client, at(v4(224, 0, 0, 251), 5353)).is_none());
    let other = at(v4(9, 9, 9, 9), 9);
    let p = UdpPacket { data: vec![1], src_addr: server, dst_addr: other };
    let r = s.on_downstream(p);
    assert_eq!((r.src_addr, r.dst_addr), (at(v4(8, 8, 8, 8), 53), client));
    let p = UdpPacket { data: vec![1], src_addr: at(v4(8, 8, 4, 4), 54), dst_addr: other };
    assert_eq!(s.on_downstream(p).dst_addr, other);
    let to = DestinationAddr { host: HostName::Ip(v4(8, 8, 4, 4)), port: 53 };
    let r = s.send_to(to, vec![2]).unwrap();
    assert_eq!((r.src_addr, r.dst_addr, r.data), (server, client, vec![2]));
    let name = DestinationAddr { host: HostName::DomainName("a".to_string()), port: 53 };
    assert!(s.send_to(name, vec![2]).is_none());
    s.shut_down();
    assert!(s.closed);
    assert_eq!(TunDatagramHandler::new(Some(3)).on_session(), Some(&3));
    assert_eq!(TunDatagramHandler::<u8>::new(None).on_session(), None);
}

#[test]
fn streams_are_adapted() {
    let mut f = TunCompatFlow::new((), 4096);
    assert_eq!(f.poll_request_size().with_min_content(7), 7);
    f.commit_rx_buffer(vec![1]);
    assert!(matches!(f.poll_rx_buffer(ReadEvent::Pending), RxOutcome::Pending));
    let r = f.poll_rx_buffer(ReadEvent::Data(&[2, 3]));
    assert!(matches!(r, RxOutcome::Ready(Ok(b)) if b == vec![1, 2, 3]));
    f.commit_rx_buffer(vec![1]);
    let r = f.poll_rx_buffer(ReadEvent::Data(&[]));
    assert!(matches!(r, RxOutcome::Ready(Err((b, FlowError::Eof))) if b == vec![1]));
    let mut b = f.poll_tx_buffer(10);
    b.extend([4, 5, 6]);
    f.commit_tx_buffer(b);
    assert!(matches!(f.poll_flush_tx(), FlushStep::Write));
    assert_eq!(f.to_write(), &[4, 5, 6]);
    f.on_written(2);
    assert_eq!(f.to_write(), &[6]);
    f.on_written(1);
    assert!(matches!(f.poll_flush_tx(), FlushStep::Flush));
    let e = convert_error(std::io::Error::from(std::io::ErrorKind::BrokenPipe));
    assert!(matches!(e, FlowError::Io(x) if x.kind() == std::io::ErrorKind::BrokenPipe));
    assert_eq!(TunStreamHandler::new(Some(3)).on_stream(), Some(&3));
}

#[test]
fn streams_of_the_stack_are_adapted() {
    let mut f = NetstackStreamAdapter::new(());
    assert!(matches!(f.poll_request_size(), SizeHint::Unknown { overhead: 0 }));
    f.commit_rx_buffer(vec![1]);
    let r = f.poll_rx_buffer(ReadEvent::Data(&[]));
    assert!(matches!(r, RxOutcome::Ready(Err((b, FlowError::Eof))) if b.is_empty()));
    let e = std::io::Error::from(std::io::ErrorKind::TimedOut);
    let r = f.poll_rx_buffer(ReadEvent::Failed(e));
    assert!(matches!(r, RxOutcome::Ready(Err((_, FlowError::Io(_))))));
    let mut b = f.poll_tx_buffer(10);
    b.extend([4, 5]);
    f.commit_tx_buffer(b);
    assert!(matches!(f.poll_flush_tx(), FlushStep::Write));
    assert_eq!(f.to_write(), &[4, 5]);
    f.on_written(1);
    assert_eq!(f.to_write(), &[5]);
    f.on_written(1);
    assert!(matches!(f.poll_flush_tx(), FlushStep::Ready));
    let h = TunStreamFactory::new("handler");
    let mut a = TunStreamAdapter::new(1, 2);
    assert_eq!(a.take_stream(), Some(2));
    assert!(h.handle_connection(a).is_none());
    assert_eq!(h.handle_connection(TunStreamAdapter::new(1, 2)), Some((&"handler", 2)));
}

#[test]
fn commands_for_routes() {
    let words = |v: &[&str]| v.iter().map(|s| s.to_string()).collect::<Vec<String>>();
    let c = add_route("utun7", "10.0.0.0/8");
    assert_eq!((c.program.as_str(), c.failure.as_str()), ("route", "add route failed"));
    assert_eq!(c.args, words(&["add", "-net", "10.0.0.0/8", "-interface", "utun7"]));
    let c = add_route("utun7", "fd00::1/64");
    assert_eq!(c.program, "ifconfig");
    assert_eq!(c.args, words(&["utun7", "inet6", "fd00::1", "prefixlen", "64", "alias"]));
    let c = add_route("utun7", "fd00::");
    assert_eq!(c.args, words(&["add", "-inet6", "fd00::", "-interface", "utun7"]));
    let c = configure_ipv6("utun7", "fd00::1", 64);
    assert_eq!(new_io_error(&c, false), Err("configure ipv6 address failed".to_string()));
    assert_eq!(new_io_error(&c, true), Ok(()));
    assert_eq!(ask_default_gateway().args, words(&["-n", "get", "default"]));
    let out = "   route to: default\n    gateway: 192.168.1.1 \n  interface: en0\n";
    assert_eq!(get_default_gateway(true, out), Some("192.168.1.1".to_string()));
    assert_eq!(get_default_gateway(false, out), None);
    assert_eq!(get_default_gateway(true, "none"), None);
    assert_eq!(get_default_gateway(true, "gateway: router\ngateway: 1.1.1.1"), None);
    assert_eq!(get_outbound_interface(), Some("en0".to_string()));
    let c = maybe_add_default_route(Some("192.168.1.1")).unwrap();
    assert_eq!(c.args, words(&["add", "-ifscope", "en0", "0/0", "192.168.1.1"]));
    assert!(maybe_add_default_route(None).is_err());
    let c = maybe_routes_clean_up(Some("192.168.1.1")).unwrap();
    assert_eq!(c.args[0], "delete");
    assert!(maybe_routes_clean_up(None).is_err());
}

#[test]
fn a_runner_is_planned() {
    let routes = Some(vec!["1.0.0.0/8".to_string(), "2.0.0.0/8".to_string()]);
    assert_eq!(maybe_add_routes(&routes, "utun7").len(), 2);
    assert!(maybe_add_routes(&None, "utun7").is_empty());
    let cfg: Tunconfig<u8, u8, u8> = Tunconfig::new(
        "utun7".to_string(),
        routes,
        Some(1400),
        None,
        "10.0.0.1".to_string(),
    );
    assert!(cfg.enabled && cfg.dns_hijack);
    let cfg = cfg.with_stream_handler(1).with_datagram_handler(2).with_dns_hijack(false).with_fakeip(3);
    let p = get_runner(cfg).unwrap();
    assert_eq!((p.device.name.as_str(), p.device.mtu, p.routes.len()), ("utun7", Some(1400), 2));
    assert_eq!((p.stream_handler, p.datagram_handler, p.fakeip), (Some(1), 2, Some(3)));
    assert!(p.stack.tcp && p.stack.udp && !p.stack.icmp && !p.dns_hijack);
    let mut off: Tunconfig<u8, u8, u8> =
        Tunconfig::new("u".to_string(), None, None, None, "g".to_string());
    off.enabled = false;
    assert!(get_runner(off).is_none());
    let c: FlowContext = tcp_context(at(v4(1, 1, 1, 1), 1), at(v4(2, 2, 2, 2), 2));
    assert!(c.af_sensitive && c.remote_peer.port == 2);
}

#[test]
fn the_device_task_goes_on_or_stops() {
    assert!(matches!(after_recv(Ok(7)), DeviceStep::Deliver(7)));
    assert!(matches!(after_recv(Err(DeviceError::WouldBlock)), DeviceStep::After(10)));
    assert!(matches!(after_recv(Err(DeviceError::BrokenPipe)), DeviceStep::Stop));
    assert!(matches!(after_recv(Err(DeviceError::Other)), DeviceStep::Again));
    assert!(matches!(after_deliver(false), DeviceStep::Stop));
    assert!(send_result(false, SendOutcome::TimedOut).is_ok());
    assert!(matches!(send_result(true, SendOutcome::Queued), Err(DeviceError::BrokenPipe)));
    assert!(matches!(recv_result(false, RecvOutcome::TimedOut), Err(DeviceError::WouldBlock)));
    assert!(matches!(recv_result(false, RecvOutcome::Busy), Err(DeviceError::TimedOut)));
    assert!(matches!(recv_result(true, RecvOutcome::Busy), Err(DeviceError::BrokenPipe)));
    assert!(matches!(after_try(Some(Ok(vec![1]))), RecvStep::Packet(_)));
    assert!(matches!(after_try(Some(Ok(vec![]))), RecvStep::Retry(0)));
    assert!(matches!(after_try(None), RecvStep::Retry(10)));
    assert!(matches!(after_try(Some(Err(DeviceError::Other))), RecvStep::Retry(1000)));
    assert!(matches!(after_read(ReadResult::Read(0)), TaskStep::Continue));
    assert!(matches!(after_read(ReadResult::Read(3)), TaskStep::Deliver(3)));
    assert!(matches!(after_read(ReadResult::Failed), TaskStep::Stop));
    assert!(matches!(after_handover(true), TaskStep::Continue));
    assert_eq!([io_loop(false, true), io_loop(true, false), io_loop(true, true)], [10, 100, 0]);
}

#[test]
fn buffers_of_a_device() {
    let mut t = MacTun::new(None, v4(1, 1, 1, 1), None);
    assert_eq!((t.get_name(), t.mtu(), t.get_address()), ("utun", 1500, v4(1, 1, 1, 1)));
    for i in 0..70 {
        t.return_recv_buffer(vec![i]);
    }
    assert_eq!(t.buffer_pool.len(), 64);
    assert_eq!((t.take_recv_buffer().len(), t.buffer_pool.len()), (0, 63));
    assert_eq!(t.buffer_pool[0], vec![1]);
    let b = t.get_tx_buffer(9).unwrap();
    assert_eq!((b.signature, b.data.len()), ([9, 1500], 1500));
    assert_eq!(t.send(TunBufferToken::new([1, 1], vec![1, 2, 3]), 2), vec![1, 2]);
    assert_eq!(t.shutdown(), vec!["utun".to_string(), "down".to_string()]);
    assert!(t.closed && t.buffer_pool.is_empty());
    assert_eq!(MacTun::from_device(Some(1400)).mtu(), 1400);
    assert_eq!(MacTun::new_ipv4("x", Ipv4Addr::new(1, 2, 3, 4), Some(9)).get_name(), "x");
    let m = proxy::tun::tun_device::MacTun::new(
        "utun7",
        Some("utun8".to_string()),
        Ipv4Addr::new(1, 2, 3, 4),
        Ipv4Addr::new(255, 255, 255, 0),
        None,
    );
    assert_eq!((m.get_name(), m.mtu), ("utun8", 1500));
    let good = TunBufferToken::new([1, 0], vec![1, 2, 3]);
    assert_eq!(m.send(good, 2).ok(), Some(vec![1, 2]));
    let bad = TunBufferToken::new([0, 0], vec![1, 2, 3]);
    assert!(matches!(m.send(bad, 2), Err(SendError::InvalidBuffer)));
    assert!(matches!(m.sent(false), Err(SendError::Closed)));
}

#[test]
fn another_device() {
    let mut d = TunDevice::new("tun0", 100, 2);
    assert!(d.add_default_routes().is_empty() && d.add_route("1.0.0.0/8").is_none());
    let ip = Ipv4Addr::new(10, 0, 0, 1);
    let c = d.configure_ip(ip, Ipv4Addr::new(255, 0, 0, 0));
    assert_eq!(c.program, "ifconfig");
    assert_eq!(c.args.join(" "), "tun0 inet 10.0.0.1 10.0.0.1 netmask 255.0.0.0 up");
    assert_eq!(d.point_to_point().args.join(" "), "tun0 link0");
    assert_eq!(d.get_address(), Some(ip));
    let r = d.add_default_routes();
    assert_eq!(r[1].args.join(" "), "-n add -net 128.0.0.0/1 -interface tun0");
    d.start();
    assert!(d.running);
    d.stop();
    let b = d.take_recv_buffer();
    assert_eq!(b.len(), 100);
    assert_eq!(d.blocking_recv(b, Some(3)).map(|b| b.len()), Some(3));
    d.return_recv_buffer(vec![7]);
    d.take_recv_buffer();
    let b = d.take_recv_buffer();
    assert_eq!((b[0], b[1], b.len()), (7, 0, 100));
    assert!(d.blocking_recv(b, None).is_none());
    assert_eq!(d.rx_buffers.len(), 1);
    let t = d.get_tx_buffer().unwrap();
    assert_eq!(t.signature, [0, 0]);
    assert!(d.get_tx_buffer().is_some() && d.get_tx_buffer().is_none());
    assert_eq!(d.send(t, 5).len(), 5);
    let t = d.get_tx_buffer().unwrap();
    assert!(!d.send_buffer(t, false));
    assert!(d.get_tx_buffer().is_none());
    d.return_tx_buffer(TunBufferToken::new([4, 4], vec![]));
    assert_eq!(Arc::new(d).tx_buffers.len(), 1);
}
