//! Dialling a destination: which addresses are tried, and in what order.
use vstd::prelude::*;

use crate::flow::error::FlowError;
use crate::flow::DestView;
use crate::flow::DestinationAddr;
use crate::flow::FlowContext;
use crate::flow::HostName;
use crate::flow::HostView;
use crate::net::IpAddr;
use crate::net::Ipv4Addr;
use crate::net::Ipv6Addr;
use crate::net::SocketAddr;

verus! {

/// How the addresses to dial are found.
#[derive(Debug)]
pub enum DialPlan {
    /// The destination is this address.
    Address(IpAddr),
    /// The name is resolved for one family.
    ResolveV4(String),
    ResolveV6(String),
    /// The name is resolved for both families; the addresses come one by one.
    ResolveBoth(String),
}

#[verifier::ext_equal]
pub enum DialPlanView {
    Address(IpAddr),
    ResolveV4(Seq<char>),
    ResolveV6(Seq<char>),
    ResolveBoth(Seq<char>),
}

impl View for DialPlan {
    type V = DialPlanView;

    open spec fn view(&self) -> DialPlanView {
        match self {
            DialPlan::Address(ip) => DialPlanView::Address(*ip),
            DialPlan::ResolveV4(name) => DialPlanView::ResolveV4(name@),
            DialPlan::ResolveV6(name) => DialPlanView::ResolveV6(name@),
            DialPlan::ResolveBoth(name) => DialPlanView::ResolveBoth(name@),
        }
    }
}

/// How the addresses of `host` are found, given for which families there is a local address to bind
/// to; nothing where there is none for its family.
pub open spec fn dial_plan_spec(host: HostView, bind_v4: bool, bind_v6: bool) -> Option<
    DialPlanView,
> {
    match host {
        HostView::Ip(IpAddr::V4(ip)) => if bind_v4 {
            Some(DialPlanView::Address(IpAddr::V4(ip)))
        } else {
            None
        },
        HostView::Ip(IpAddr::V6(ip)) => if bind_v6 {
            Some(DialPlanView::Address(IpAddr::V6(ip)))
        } else {
            None
        },
        HostView::DomainName(name) => if bind_v4 && bind_v6 {
            Some(DialPlanView::ResolveBoth(name))
        } else if bind_v4 {
            Some(DialPlanView::ResolveV4(name))
        } else if bind_v6 {
            Some(DialPlanView::ResolveV6(name))
        } else {
            None
        },
    }
}

/// Decides how the addresses of `host` are found. Without a local address of its family there is no
/// outbound.
pub fn dial_plan(host: &HostName, bind_v4: bool, bind_v6: bool) -> (r: Result<DialPlan, FlowError>)
    ensures
        match (r, dial_plan_spec(host@, bind_v4, bind_v6)) {
            (Ok(plan), Some(view)) => plan@ == view,
            (Err(e), None) => e == FlowError::NoOutbound,
            _ => false,
        },
{
    match host {
        HostName::Ip(IpAddr::V4(ip)) => if bind_v4 {
            Ok(DialPlan::Address(IpAddr::V4(*ip)))
        } else {
            Err(FlowError::NoOutbound)
        },
        HostName::Ip(IpAddr::V6(ip)) => if bind_v6 {
            Ok(DialPlan::Address(IpAddr::V6(*ip)))
        } else {
            Err(FlowError::NoOutbound)
        },
        HostName::DomainName(name) => if bind_v4 && bind_v6 {
            Ok(DialPlan::ResolveBoth(name.clone()))
        } else if bind_v4 {
            Ok(DialPlan::ResolveV4(name.clone()))
        } else if bind_v6 {
            Ok(DialPlan::ResolveV6(name.clone()))
        } else {
            Err(FlowError::NoOutbound)
        },
    }
}

/// The address that is dialled for a name that is resolved for IPv4 alone: 110.242.68.66, whatever
/// the name resolved to.
pub fn ipv4_targets(resolved: Vec<Ipv4Addr>) -> (r: Vec<Ipv4Addr>)
    ensures
        r@ == seq![Ipv4Addr { bits: 0x6ef2_4442 }],
{
    let r: Vec<Ipv4Addr> = vec![Ipv4Addr { bits: 0x6ef2_4442 }];
    assert(r@ =~= seq![Ipv4Addr { bits: 0x6ef2_4442 }]);
    r
}

// ---- Attempts ----
/// What is waited for.
#[derive(Clone, Copy, PartialEq, Eq, Structural, Debug)]
pub enum DialPhase {
    /// The next address, or that there are no more.
    NextAddress,
    /// The outcome of the attempts that run, for as long as a new attempt is held back.
    Racing,
    /// The outcome of the attempts that run. There are no more addresses.
    Draining,
}

/// The attempts to connect to the addresses of a destination. A new one begins when those before
/// have failed, or have had their time.
pub struct Dialer {
    pub phase: DialPhase,
    /// How many attempts run.
    pub running: usize,
    /// How the last attempt failed that did.
    pub error: FlowError,
}

pub enum DialEvent {
    /// There is another address.
    Address,
    /// There are no more addresses.
    NoMore,
    /// An attempt succeeded.
    Connected,
    /// An attempt failed.
    Failed(FlowError),
    /// The attempts have had their time.
    DelayElapsed,
}

pub enum DialAction {
    /// Get the next address.
    NextAddress,
    /// Begin an attempt on the address, then wait until one ends, or until the time is up.
    DialAndRace,
    /// Wait on, until an attempt ends or the time is up.
    Race,
    /// Wait until an attempt ends.
    Drain,
    /// Use the connection.
    Use,
    /// Give up.
    GiveUp(FlowError),
}

impl Dialer {
    /// Before the first attempt.
    pub fn new() -> (d: Dialer)
        ensures
            d == (Dialer {
                phase: DialPhase::NextAddress,
                running: 0,
                error: FlowError::NoOutbound,
            }),
    {
        Dialer { phase: DialPhase::NextAddress, running: 0, error: FlowError::NoOutbound }
    }

    /// Whether `event` can happen now.
    pub open spec fn possible(&self, event: DialEvent) -> bool {
        match event {
            DialEvent::Address => self.phase is NextAddress && self.running < usize::MAX,
            DialEvent::NoMore => self.phase is NextAddress,
            DialEvent::Connected => self.running > 0 && !(self.phase is NextAddress),
            DialEvent::Failed(_) => self.running > 0 && !(self.phase is NextAddress),
            DialEvent::DelayElapsed => self.phase is Racing,
        }
    }

    /// Where the attempts stand after `event`.
    pub open spec fn after(self, event: DialEvent) -> Dialer {
        match event {
            DialEvent::Address => Dialer {
                phase: DialPhase::Racing,
                running: (self.running + 1) as usize,
                error: self.error,
            },
            DialEvent::NoMore => Dialer { phase: DialPhase::Draining, ..self },
            DialEvent::Connected => self,
            DialEvent::Failed(e) => Dialer {
                phase: if self.phase is Racing && self.running == 1 {
                    DialPhase::NextAddress
                } else {
                    self.phase
                },
                running: (self.running - 1) as usize,
                error: e,
            },
            DialEvent::DelayElapsed => Dialer { phase: DialPhase::NextAddress, ..self },
        }
    }

    /// What is done about `event`.
    pub open spec fn action(self, event: DialEvent) -> DialAction {
        let next = self.after(event);
        match event {
            DialEvent::Address => DialAction::DialAndRace,
            DialEvent::Connected => DialAction::Use,
            DialEvent::DelayElapsed => DialAction::NextAddress,
            _ => match next.phase {
                DialPhase::NextAddress => DialAction::NextAddress,
                DialPhase::Racing => DialAction::Race,
                DialPhase::Draining => if next.running == 0 {
                    DialAction::GiveUp(next.error)
                } else {
                    DialAction::Drain
                },
            },
        }
    }

    /// Decides what is done about `event`. After `Use` and `GiveUp` there is no more to decide.
    pub fn on_event(self, event: DialEvent) -> (r: (Option<Dialer>, DialAction))
        requires
            self.possible(event),
        ensures
            r.1 == self.action(event),
            match r.0 {
                Some(d) => d == self.after(event) && !(r.1 is Use) && !(r.1 is GiveUp),
                None => r.1 is Use || r.1 is GiveUp,
            },
    {
        match event {
            DialEvent::Address => (
                Some(
                    Dialer {
                        phase: DialPhase::Racing,
                        running: self.running + 1,
                        error: self.error,
                    },
                ),
                DialAction::DialAndRace,
            ),
            DialEvent::NoMore => {
                if self.running == 0 {
                    (None, DialAction::GiveUp(self.error))
                } else {
                    (
                        Some(
                            Dialer {
                                phase: DialPhase::Draining,
                                running: self.running,
                                error: self.error,
                            },
                        ),
                        DialAction::Drain,
                    )
                }
            },
            DialEvent::Connected => (None, DialAction::Use),
            DialEvent::Failed(e) => {
                let running: usize = self.running - 1;
                match self.phase {
                    DialPhase::Racing => {
                        if running == 0 {
                            (
                                Some(Dialer { phase: DialPhase::NextAddress, running, error: e }),
                                DialAction::NextAddress,
                            )
                        } else {
                            (
                                Some(Dialer { phase: DialPhase::Racing, running, error: e }),
                                DialAction::Race,
                            )
                        }
                    },
                    _ => {
                        if running == 0 {
                            (None, DialAction::GiveUp(e))
                        } else {
                            (
                                Some(Dialer { phase: DialPhase::Draining, running, error: e }),
                                DialAction::Drain,
                            )
                        }
                    },
                }
            },
            DialEvent::DelayElapsed => (
                Some(
                    Dialer {
                        phase: DialPhase::NextAddress,
                        running: self.running,
                        error: self.error,
                    },
                ),
                DialAction::NextAddress,
            ),
        }
    }
}

/// Nobody gives up while an attempt runs, nor before all addresses were tried.
pub proof fn gives_up_last(d: Dialer, event: DialEvent)
    requires
        d.possible(event),
        d.action(event) is GiveUp,
    ensures
        d.after(event).running == 0,
        d.after(event).phase is Draining,
{
}

/// A connection is used as soon as there is one, and only then.
pub proof fn used_when_connected(d: Dialer, event: DialEvent)
    requires
        d.possible(event),
    ensures
        d.action(event) is Use <==> event is Connected,
{
}

// ---- Sockets ----
/// The address of the loopback interface that a socket to a loopback address is bound to.
pub open spec fn loopback_bind(ip: IpAddr) -> Option<SocketAddr> {
    match ip {
        IpAddr::V4(a) => if a.bits / 0x100_0000 == 127 {
            Some(SocketAddr { ip: IpAddr::V4(Ipv4Addr { bits: 0x7f00_0001 }), port: 0 })
        } else {
            None
        },
        IpAddr::V6(a) => if a.bits == 1 {
            Some(SocketAddr { ip: IpAddr::V6(Ipv6Addr { bits: 1 }), port: 0 })
        } else {
            None
        },
    }
}

/// The address that a socket is bound to before it connects to `ip`: that of the loopback interface
/// for a loopback address, else the one that is configured.
pub fn bind_address(ip: IpAddr, configured: SocketAddr) -> (r: SocketAddr)
    ensures
        r == (match loopback_bind(ip) {
            Some(a) => a,
            None => configured,
        }),
{
    match ip {
        IpAddr::V4(a) => if a.bits / 0x100_0000 == 127 {
            SocketAddr { ip: IpAddr::V4(Ipv4Addr { bits: 0x7f00_0001 }), port: 0 }
        } else {
            configured
        },
        IpAddr::V6(a) => if a.bits == 1 {
            SocketAddr { ip: IpAddr::V6(Ipv6Addr { bits: 1 }), port: 0 }
        } else {
            configured
        },
    }
}

/// What a listener does after it waited for a connection.
pub enum AcceptStep {
    /// Hand the connection on with this context.
    Handle(FlowContext),
    /// Drop the connection and go on.
    Skip,
    Stop,
}

/// What a listener does after it waited for a connection. `connector` is the address of the client,
/// if one came; `local` is the address that it came to, where that is known. The listener stops
/// once nobody takes its connections.
pub fn listen_tcp(connector: Option<SocketAddr>, next_alive: bool, local: Option<SocketAddr>) -> (r:
    AcceptStep)
    ensures
        match (connector, local) {
            (Some(client), Some(addr)) if next_alive => r matches AcceptStep::Handle(c)
                && c.local_peer == client && c.remote_peer@ == (DestView {
                host: HostView::Ip(addr.ip),
                port: addr.port,
            }) && !c.af_sensitive && c.application_layer_protocol is None,
            (Some(_), None) if next_alive => r is Skip,
            _ => r is Stop,
        },
{
    match connector {
        Some(client) => {
            if !next_alive {
                return AcceptStep::Stop;
            }
            match local {
                Some(addr) => AcceptStep::Handle(
                    FlowContext::new(client, DestinationAddr::from_socket_addr(addr)),
                ),
                None => AcceptStep::Skip,
            }
        },
        None => AcceptStep::Stop,
    }
}

// ---- Laws ----
/// An address is dialled itself, where there is a local address of its family; a name is resolved for
/// the families that there are local addresses of. Where there is none, nothing is dialled.
pub proof fn hosts_are_dialled_by_family(
    host: &HostName,
    bind_v4: bool,
    bind_v6: bool,
    r: Result<DialPlan, FlowError>,
)
    requires
        call_ensures(dial_plan, (host, bind_v4, bind_v6), r),
    ensures
        host@ matches HostView::Ip(ip) ==> (if (ip is V4 && bind_v4) || (ip is V6 && bind_v6) {
            r matches Ok(DialPlan::Address(a)) && a == ip
        } else {
            r == Err::<DialPlan, FlowError>(FlowError::NoOutbound)
        }),
        host@ matches HostView::DomainName(name) ==> (match (bind_v4, bind_v6) {
            (true, true) => r matches Ok(DialPlan::ResolveBoth(n)) && n@ == name,
            (true, false) => r matches Ok(DialPlan::ResolveV4(n)) && n@ == name,
            (false, true) => r matches Ok(DialPlan::ResolveV6(n)) && n@ == name,
            (false, false) => r == Err::<DialPlan, FlowError>(FlowError::NoOutbound),
        }),
{
}

/// For IPv4 alone, one address is dialled: 110.242.68.66.
pub proof fn one_ipv4_target(resolved: Vec<Ipv4Addr>, r: Vec<Ipv4Addr>)
    requires
        call_ensures(ipv4_targets, (resolved,), r),
    ensures
        r@.len() == 1,
        r@[0].bits == 110 * 0x100_0000 + 242 * 0x1_0000 + 68 * 0x100 + 66,
{
}

/// Each address begins an attempt; an attempt that fails is over; the first that succeeds is used. A new
/// attempt begins when its time has come or none runs; after the last address the attempts that run
/// are waited for, and once none does the last error is given.
pub proof fn attempts_follow_the_events(
    d: Dialer,
    event: DialEvent,
    r: (Option<Dialer>, DialAction),
)
    requires
        d.possible(event),
        call_ensures(Dialer::on_event, (d, event), r),
    ensures
        event is Connected <==> r.1 is Use,
        event is Address <==> r.1 is DialAndRace,
        event is Address ==> (r.0 matches Some(e) && e.running == d.running + 1 && e.error == d.error
            && e.phase is Racing),
        event is DelayElapsed ==> r.1 is NextAddress && (r.0 matches Some(e) && e.running
            == d.running && e.error == d.error && e.phase is NextAddress),
        event is NoMore && d.running == 0 ==> r.1 == DialAction::GiveUp(d.error) && r.0 is None,
        event is NoMore && d.running > 0 ==> r.1 is Drain && (r.0 matches Some(e) && e.running
            == d.running && e.error == d.error && e.phase is Draining),
        event matches DialEvent::Failed(error) ==> (if d.running > 1 {
            r.0 matches Some(e) && e.running == d.running - 1 && e.error == error && e.phase
                == d.phase && (d.phase is Racing ==> r.1 is Race) && (d.phase is Draining
                ==> r.1 is Drain)
        } else if d.phase is Racing {
            r.1 is NextAddress && (r.0 matches Some(e) && e.running == 0 && e.error == error
                && e.phase is NextAddress)
        } else {
            r.1 == DialAction::GiveUp(error) && r.0 is None
        }),
{
}

/// Where the attempts stand after the first `n` of the events.
pub open spec fn dialled(events: Seq<DialEvent>, n: int) -> Dialer
    decreases n,
{
    if n <= 0 {
        Dialer { phase: DialPhase::NextAddress, running: 0, error: FlowError::NoOutbound }
    } else {
        dialled(events, n - 1).after(events[n - 1])
    }
}

/// How many of the first `n` events begin an attempt, less those that end one.
pub open spec fn in_flight(events: Seq<DialEvent>, n: int) -> int
    decreases n,
{
    if n <= 0 {
        0
    } else {
        in_flight(events, n - 1) + (if events[n - 1] is Address {
            1int
        } else if events[n - 1] is Failed {
            -1int
        } else {
            0int
        })
    }
}

/// Whether each of the first `n` events can happen when it does.
pub open spec fn can_happen(events: Seq<DialEvent>, n: int) -> bool {
    forall|i: int| 0 <= i < n ==> #[trigger] dialled(events, i).possible(events[i])
}

/// In every run the attempts that run are those that began and did not fail.
pub proof fn attempts_are_counted(events: Seq<DialEvent>, n: int)
    requires
        0 <= n <= events.len(),
        can_happen(events, n),
    ensures
        dialled(events, n).running == in_flight(events, n),
    decreases n,
{
    if n > 0 {
        attempts_are_counted(events, n - 1);
        assert(dialled(events, n - 1).possible(events[n - 1]));
    }
}

/// Once it was said that there are no more addresses, none is asked for again.
pub proof fn last_address_is_the_last(events: Seq<DialEvent>, i: int, n: int)
    requires
        0 <= i < n <= events.len(),
        can_happen(events, n),
        events[i] is NoMore,
    ensures
        dialled(events, n).phase is Draining,
        forall|e: DialEvent| #[trigger]
            dialled(events, n).possible(e) ==> e is Connected || e is Failed,
    decreases n,
{
    if n > i + 1 {
        last_address_is_the_last(events, i, n - 1);
        assert(dialled(events, n - 1).possible(events[n - 1]));
    }
}

/// The error that is given in the end is that of the last attempt that failed.
pub proof fn last_error_counts(events: Seq<DialEvent>, i: int, error: FlowError, n: int)
    requires
        0 <= i < n <= events.len(),
        events[i] == DialEvent::Failed(error),
        forall|j: int| i < j < n ==> !(#[trigger] events[j] is Failed),
    ensures
        dialled(events, n).error == error,
    decreases n,
{
    if n > i + 1 {
        last_error_counts(events, i, error, n - 1);
        assert(!(events[n - 1] is Failed));
    }
}

/// Where no attempt failed, the error is that there is no outbound.
pub proof fn no_outbound_without_attempts(events: Seq<DialEvent>, n: int)
    requires
        0 <= n <= events.len(),
        forall|j: int| 0 <= j < n ==> !(#[trigger] events[j] is Failed),
    ensures
        dialled(events, n).error == FlowError::NoOutbound,
    decreases n,
{
    if n > 0 {
        no_outbound_without_attempts(events, n - 1);
        assert(!(events[n - 1] is Failed));
    }
}

/// A socket to a loopback address, 127.x.y.z or ::1, is bound to the loopback interface, and any other
/// to the address that is configured.
pub proof fn loopback_is_bound_to_itself(ip: IpAddr, configured: SocketAddr, low: u32, r: SocketAddr)
    requires
        low < 0x100_0000,
        call_ensures(bind_address, (ip, configured), r),
    ensures
        ip == IpAddr::V4(Ipv4Addr { bits: (127 * 0x100_0000 + low) as u32 }) ==> r.ip == IpAddr::V4(
            Ipv4Addr { bits: (127 * 0x100_0000 + 1) as u32 },
        ) && r.port == 0,
        ip == IpAddr::V6(Ipv6Addr { bits: 1 }) ==> r.ip == ip && r.port == 0,
        ip matches IpAddr::V4(a) ==> (a.bits < 127 * 0x100_0000 || a.bits >= 128 * 0x100_0000 ==> r
            == configured),
        ip matches IpAddr::V6(a) ==> (a.bits != 1 ==> r == configured),
{
    assert((127 * 0x100_0000 + low) / 0x100_0000 == 127);
}

/// A listener hands on every connection whose two ends are known, as long as somebody takes them: the
/// flow is from the client to the address that it came to.
pub proof fn connections_are_handed_on(
    connector: Option<SocketAddr>,
    next_alive: bool,
    local: Option<SocketAddr>,
    r: AcceptStep,
)
    requires
        call_ensures(listen_tcp, (connector, next_alive, local), r),
    ensures
        r is Stop <==> connector is None || !next_alive,
        r is Skip <==> connector is Some && next_alive && local is None,
        r matches AcceptStep::Handle(c) ==> connector == Some(c.local_peer) && local is Some
            && c.remote_peer@.host == HostView::Ip(local->Some_0.ip) && c.remote_peer@.port
            == local->Some_0.port && !c.af_sensitive && c.application_layer_protocol is None,
{
}

} // verus!
