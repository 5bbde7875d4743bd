//! Taking the traffic of a TUN device in.
use vstd::prelude::*;

use crate::flow::DestView;
use crate::flow::DestinationAddr;
use crate::flow::FlowContext;
use crate::flow::HostName;
use crate::flow::HostView;
use crate::net::IpAddr;
use crate::net::Ipv4Addr;
use crate::net::SocketAddr;
use crate::tun::routes::macos::add_route;
use crate::tun::routes::macos::route_command;
use crate::tun::routes::macos::RouteCommand;
use crate::tun::routes::macos::RouteCommandView;
use crate::tun::routes::macos::Tunconfig;

verus! {

/// What a device is made with.
pub struct DeviceSetup {
    pub name: String,
    pub mtu: Option<u16>,
    pub address: String,
    pub netmask: Option<String>,
}

/// Which protocols the IP stack takes.
#[derive(Clone, Copy, PartialEq, Eq, Structural, Debug)]
pub struct StackSetup {
    pub tcp: bool,
    pub udp: bool,
    pub icmp: bool,
}

/// What is needed to run a device.
pub struct RunnerPlan<S, D, F> {
    pub device: DeviceSetup,
    pub routes: Vec<RouteCommand>,
    pub stack: StackSetup,
    /// Who gets the TCP streams. Without a handler they are ignored.
    pub stream_handler: Option<S>,
    pub datagram_handler: D,
    pub dns_hijack: bool,
    pub fakeip: Option<F>,
}

pub open spec fn command_views(s: Seq<RouteCommand>) -> Seq<RouteCommandView> {
    Seq::new(s.len(), |i: int| s[i]@)
}

/// One command for each route.
pub open spec fn route_commands(routes: Option<Vec<String>>, tun_name: Seq<char>) -> Seq<
    RouteCommandView,
> {
    match routes {
        Some(list) => Seq::new(
            list@.len(),
            |i: int| route_command(tun_name, list@[i]@),
        ),
        None => Seq::empty(),
    }
}

/// The commands that send traffic for the routes through a device. One that fails does not stop the
/// others.
pub fn maybe_add_routes(routes: &Option<Vec<String>>, tun_name: &str) -> (r: Vec<RouteCommand>)
    ensures
        command_views(r@) == route_commands(*routes, tun_name@),
{
    let mut r: Vec<RouteCommand> = Vec::new();
    if let Some(list) = routes {
        let mut i: usize = 0;
        while i < list.len()
            invariant
                i <= list@.len(),
                r@.len() == i,
                forall|j: int|
                    0 <= j < i ==> (#[trigger] r@[j])@ == route_command(tun_name@, list@[j]@),
            decreases list@.len() - i,
        {
            r.push(add_route(tun_name, list[i].as_str()));
            i += 1;
        }
    }
    assert(command_views(r@) =~= route_commands(*routes, tun_name@));
    r
}

/// What is needed to run a device; nothing where it is off. Someone has to take the datagrams.
pub fn get_runner<S, D, F>(cfg: Tunconfig<S, D, F>) -> (r: Option<RunnerPlan<S, D, F>>)
    requires
        cfg.enabled ==> cfg.datagram_handler is Some,
    ensures
        match r {
            Some(p) => {
                &&& cfg.enabled
                &&& p.device == (DeviceSetup {
                    name: cfg.tun_name,
                    mtu: cfg.mtu,
                    address: cfg.gateway,
                    netmask: cfg.netmask,
                })
                &&& command_views(p.routes@) == route_commands(cfg.routes, cfg.tun_name@)
                &&& p.stack == (StackSetup { tcp: true, udp: true, icmp: false })
                &&& p.stream_handler == cfg.stream_handler
                &&& cfg.datagram_handler == Some(p.datagram_handler)
                &&& p.dns_hijack == cfg.dns_hijack
                &&& p.fakeip == cfg.fakeip
            },
            None => !cfg.enabled,
        },
{
    if !cfg.enabled {
        return None;
    }
    let routes = maybe_add_routes(&cfg.routes, cfg.tun_name.as_str());
    Some(
        RunnerPlan {
            device: DeviceSetup {
                name: cfg.tun_name,
                mtu: cfg.mtu,
                address: cfg.gateway,
                netmask: cfg.netmask,
            },
            routes,
            stack: StackSetup { tcp: true, udp: true, icmp: false },
            stream_handler: cfg.stream_handler,
            datagram_handler: cfg.datagram_handler.unwrap(),
            dns_hijack: cfg.dns_hijack,
            fakeip: cfg.fakeip,
        },
    )
}

/// The context of a TCP stream from the device.
pub fn tcp_context(local_addr: SocketAddr, remote_addr: SocketAddr) -> (c: FlowContext)
    ensures
        c.local_peer == local_addr,
        c.remote_peer@ == (DestView { host: HostView::Ip(remote_addr.ip), port: remote_addr.port }),
        c.af_sensitive,
        c.application_layer_protocol is None,
{
    FlowContext::new_af_sensitive(local_addr, DestinationAddr::from_socket_addr(remote_addr))
}

/// The context that the session with all UDP clients begins with: nothing is known yet.
pub fn handle_inbound_udp() -> (c: FlowContext)
    ensures
        c.local_peer == (SocketAddr { ip: IpAddr::V4(Ipv4Addr { bits: 0 }), port: 0 }),
        c.remote_peer@ == (DestView {
            host: HostView::Ip(IpAddr::V4(Ipv4Addr { bits: 0 })),
            port: 0,
        }),
        !c.af_sensitive,
        c.application_layer_protocol is None,
{
    let nowhere = IpAddr::V4(Ipv4Addr { bits: 0 });
    FlowContext::new(
        SocketAddr { ip: nowhere, port: 0 },
        DestinationAddr { host: HostName::Ip(nowhere), port: 0 },
    )
}

/// A device that is on is run with its own name, address and routes, one command for each route, for TCP
/// and UDP, and with its handlers. One that is off is not run.
pub proof fn devices_run_where_they_are_on(
    cfg: Tunconfig<u8, u8, u8>,
    r: Option<RunnerPlan<u8, u8, u8>>,
)
    requires
        cfg.enabled ==> cfg.datagram_handler is Some,
        call_ensures(get_runner::<u8, u8, u8>, (cfg,), r),
    ensures
        r is Some <==> cfg.enabled,
        r matches Some(p) ==> p.device.name == cfg.tun_name && p.device.address == cfg.gateway
            && p.device.mtu == cfg.mtu && p.device.netmask == cfg.netmask && p.stack.tcp
            && p.stack.udp && !p.stack.icmp && p.stream_handler == cfg.stream_handler && Some(
            p.datagram_handler,
        ) == cfg.datagram_handler && p.dns_hijack == cfg.dns_hijack && p.fakeip == cfg.fakeip,
        r matches Some(p) ==> (cfg.routes is None ==> p.routes@.len() == 0),
        r matches Some(p) ==> (cfg.routes matches Some(list) ==> p.routes@.len() == list@.len()
            && forall|i: int|
            0 <= i < list@.len() ==> (#[trigger] p.routes@[i])@ == route_command(
                cfg.tun_name@,
                list@[i]@,
            )),
{
    if let Some(p) = r {
        let views = command_views(p.routes@);
        assert(views.len() == p.routes@.len());
        if let Some(list) = cfg.routes {
            assert forall|i: int| 0 <= i < list@.len() implies (#[trigger] p.routes@[i])@
                == route_command(cfg.tun_name@, list@[i]@) by {
                assert(views[i] == p.routes@[i]@);
            }
        }
    }
}

/// A stream of the device is from its client to where the client wanted; the session with all UDP
/// clients begins at no address and no port.
pub proof fn inbound_contexts(
    local: SocketAddr,
    remote: SocketAddr,
    tcp: FlowContext,
    udp: FlowContext,
)
    requires
        call_ensures(tcp_context, (local, remote), tcp),
        call_ensures(handle_inbound_udp, (), udp),
    ensures
        tcp.local_peer == local,
        tcp.remote_peer@.host == HostView::Ip(remote.ip) && tcp.remote_peer@.port == remote.port,
        tcp.af_sensitive && !udp.af_sensitive,
        udp.local_peer.port == 0 && udp.remote_peer@.port == 0,
        udp.remote_peer@.host == HostView::Ip(udp.local_peer.ip),
        udp.local_peer.ip == IpAddr::V4(Ipv4Addr { bits: 0 }),
{
}

} // verus!
