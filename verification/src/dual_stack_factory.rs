//! Choosing between a proxy for IPv4 and one for IPv6.
use vstd::prelude::*;

use crate::flow::FlowContext;
use crate::flow::HostName;
use crate::net::IpAddr;

verus! {

/// Sends flows to IPv6 addresses through a proxy of their own, where there is one.
pub struct DualStackOutboundFactory<F> {
    pub ipv4_factory: F,
    pub ipv6_factory: Option<F>,
}

impl<F> DualStackOutboundFactory<F> {
    pub fn new(ipv4_factory: F, ipv6_factory: Option<F>) -> (r: Self)
        ensures
            r.ipv4_factory == ipv4_factory,
            r.ipv6_factory == ipv6_factory,
    {
        DualStackOutboundFactory { ipv4_factory, ipv6_factory }
    }

    /// The factory that opens the outbound of a flow.
    pub fn create_outbound(&self, context: &FlowContext) -> (r: &F)
        ensures
            *r == (match (context.remote_peer.host, self.ipv6_factory) {
                (HostName::Ip(IpAddr::V6(_)), Some(f)) => f,
                _ => self.ipv4_factory,
            }),
    {
        if let HostName::Ip(IpAddr::V6(_)) = &context.remote_peer.host {
            if let Some(f) = &self.ipv6_factory {
                return f;
            }
        }
        &self.ipv4_factory
    }
}

/// A flow to an IPv6 address goes through the proxy for IPv6, where there is one; every other flow, also
/// one to a name, goes through the proxy for IPv4.
pub proof fn flows_go_by_their_family(f: &DualStackOutboundFactory<u8>, context: &FlowContext, r: &u8)
    requires
        call_ensures(DualStackOutboundFactory::<u8>::create_outbound, (f, context), r),
    ensures
        f.ipv6_factory is None ==> *r == f.ipv4_factory,
        f.ipv6_factory matches Some(six) ==> *r == (if context.remote_peer@.host matches
            crate::flow::HostView::Ip(IpAddr::V6(_)) {
            six
        } else {
            f.ipv4_factory
        }),
{
    match context.remote_peer.host {
        HostName::Ip(ip) => {
            assert(context.remote_peer@.host == crate::flow::HostView::Ip(ip));
        },
        HostName::DomainName(name) => {
            assert(context.remote_peer@.host == crate::flow::HostView::DomainName(name@));
        },
    }
}

} // verus!
