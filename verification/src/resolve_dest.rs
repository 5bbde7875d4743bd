//! Resolving the destination of a flow before it goes on.
use vstd::prelude::*;

use crate::flow::DestinationAddr;
use crate::flow::HostName;
use crate::net::IpAddr;
use crate::net::Ipv4Addr;
use crate::net::Ipv6Addr;

verus! {

/// What a resolver answered: the addresses of one family, or a failure.
pub enum Resolved {
    V4(Option<Vec<Ipv4Addr>>),
    V6(Option<Vec<Ipv6Addr>>),
}

/// The first address of an answer.
pub open spec fn first_ip(answer: Resolved) -> Option<IpAddr> {
    match answer {
        Resolved::V4(Some(ips)) if ips@.len() > 0 => Some(IpAddr::V4(ips@[0])),
        Resolved::V6(Some(ips)) if ips@.len() > 0 => Some(IpAddr::V6(ips@[0])),
        _ => None,
    }
}

/// The destination behind a domain: the first address that was answered, or the domain itself.
pub fn try_resolve_forward(answer: Resolved, domain: String, port: u16) -> (r: DestinationAddr)
    ensures
        r == (match first_ip(answer) {
            Some(ip) => DestinationAddr { host: HostName::Ip(ip), port },
            None => DestinationAddr { host: HostName::DomainName(domain), port },
        }),
{
    match answer {
        Resolved::V4(Some(ips)) => {
            if ips.len() > 0 {
                return DestinationAddr { host: HostName::Ip(IpAddr::V4(ips[0])), port };
            }
        },
        Resolved::V6(Some(ips)) => {
            if ips.len() > 0 {
                return DestinationAddr { host: HostName::Ip(IpAddr::V6(ips[0])), port };
            }
        },
        _ => {},
    }
    DestinationAddr { host: HostName::DomainName(domain), port }
}

/// A flow to a domain goes to the first address that was answered, of whichever family, and to the
/// domain where none was; its port stays.
pub proof fn first_answer_counts(answer: Resolved, domain: String, port: u16, r: DestinationAddr)
    requires
        call_ensures(try_resolve_forward, (answer, domain, port), r),
    ensures
        r.port == port,
        answer matches Resolved::V4(Some(ips)) ==> (ips@.len() > 0 ==> r.host == HostName::Ip(
            IpAddr::V4(ips@[0]),
        )),
        answer matches Resolved::V6(Some(ips)) ==> (ips@.len() > 0 ==> r.host == HostName::Ip(
            IpAddr::V6(ips@[0]),
        )),
        r.host is DomainName <==> (match answer {
            Resolved::V4(Some(ips)) => ips@.len() == 0,
            Resolved::V6(Some(ips)) => ips@.len() == 0,
            _ => true,
        }),
        r.host matches HostName::DomainName(d) ==> d == domain,
{
}

} // verus!
