//! Where an HTTP client connects to.
use vstd::prelude::*;
use vstd::slice::slice_subrange;

use crate::deps::uri::UriParts;
use crate::deps::uri::UriView;
use crate::flow::ApplicationProtocol;
use crate::flow::DestView;
use crate::flow::DestinationAddr;
use crate::flow::FlowContext;
use crate::flow::HostName;
use crate::flow::HostView;
use crate::net::IpAddr;
use crate::net::Ipv4Addr;
use crate::net::SocketAddr;
use crate::net_text::ip_of;
use crate::net_text::parse_ip;
use crate::text::chars_of;
use crate::text::drop_trailing;
use crate::text::same_text;
use crate::text::string_of;
use crate::text::trim_end_char;

verus! {

/// Connects an HTTP client through a factory of outbounds. `next` is `None` once that factory is
/// gone.
#[derive(Clone, Copy)]
pub struct FlowAdapterConnector<N> {
    pub next: Option<N>,
}

/// A connection of an HTTP client.
pub struct CompatStreamAdapter<S> {
    pub stream: S,
    /// Whether the client speaks HTTP/2 on it.
    pub use_h2: bool,
}

/// The text without the characters `c` that it begins with.
pub open spec fn trim_start_char(s: Seq<char>, c: char) -> Seq<char>
    decreases s.len(),
{
    if s.len() > 0 && s[0] == c {
        trim_start_char(s.drop_first(), c)
    } else {
        s
    }
}

/// A host without the brackets around it.
pub open spec fn bare_host_spec(host: Seq<char>) -> Seq<char> {
    trim_end_char(trim_start_char(host, '['), ']')
}

/// A host without the brackets around it.
pub fn bare_host(host: &str) -> (r: String)
    ensures
        r@ == bare_host_spec(host@),
{
    let chars: Vec<char> = chars_of(host);
    let s = chars.as_slice();
    let mut from: usize = 0;
    assert(s@.subrange(0, s@.len() as int) =~= s@);
    while from < s.len() && s[from] == '['
        invariant
            from <= s@.len(),
            trim_start_char(s@, '[') == trim_start_char(
                s@.subrange(from as int, s@.len() as int),
                '[',
            ),
        decreases s@.len() - from,
    {
        assert(s@.subrange(from as int, s@.len() as int).drop_first() =~= s@.subrange(
            from + 1,
            s@.len() as int,
        ));
        from += 1;
    }
    string_of(drop_trailing(slice_subrange(s, from, s.len()), ']'))
}

/// A name with a dot at its end.
pub open spec fn rooted(name: Seq<char>) -> Seq<char> {
    if name.len() > 0 && name.last() == '.' {
        name
    } else {
        name.push('.')
    }
}

pub open spec fn is_https(uri: UriView) -> bool {
    uri.scheme == Some("https"@)
}

/// The port of a URI: the one that it names, or that of its scheme.
pub open spec fn port_spec(uri: UriView) -> u16 {
    match uri.port {
        Some(port) => port,
        None => if is_https(uri) {
            443
        } else {
            80
        },
    }
}

/// Where a client connects to for a URI with the given host: the address that the host spells
/// without its brackets, where it spells one, else the name.
pub open spec fn target_spec(uri: UriView, host: Seq<char>) -> DestView {
    DestView {
        host: match ip_of(bare_host_spec(host)) {
            Some(a) => HostView::Ip(a),
            None => HostView::DomainName(rooted(bare_host_spec(host))),
        },
        port: port_spec(uri),
    }
}

fn https(uri: &UriParts) -> (r: bool)
    ensures
        r == is_https(uri@),
{
    match &uri.scheme {
        Some(s) => same_text(s.as_str(), "https"),
        None => false,
    }
}

impl<N> FlowAdapterConnector<N> {
    /// The context of the flow to the server of a URI.
    pub fn call(&self, dst: &UriParts) -> (r: Result<(&N, FlowContext), String>)
        requires
            dst.host is Some,
        ensures
            match r {
                Ok((n, c)) => {
                    &&& self.next == Some(*n)
                    &&& dst@.host matches Some(host) && c.remote_peer@ == target_spec(dst@, host)
                    &&& c.local_peer == (SocketAddr {
                        ip: IpAddr::V4(Ipv4Addr { bits: 0 }),
                        port: 0,
                    })
                    &&& !c.af_sensitive
                    &&& c.application_layer_protocol == Some(
                        if is_https(dst@) {
                            ApplicationProtocol::H2
                        } else {
                            ApplicationProtocol::Http11
                        },
                    )
                },
                Err(e) => self.next is None && e@ == "next is gone"@,
            },
    {
        let host = match &dst.host {
            Some(h) => h.as_str(),
            None => "",
        };
        let bare = bare_host(host);
        let next_host = match parse_ip(bare.as_str()) {
            Some(a) => HostName::Ip(a),
            None => {
                let mut name: Vec<char> = chars_of(bare.as_str());
                if !(name.len() > 0 && name[name.len() - 1] == '.') {
                    name.push('.');
                }
                assert(name@ =~= rooted(bare_host_spec(host@)));
                HostName::DomainName(string_of(name.as_slice()))
            },
        };
        let port: u16 = match dst.port {
            Some(p) => p,
            None => if https(dst) {
                443
            } else {
                80
            },
        };
        let remote_peer = DestinationAddr { host: next_host, port };
        match &self.next {
            Some(n) => {
                let local = SocketAddr { ip: IpAddr::V4(Ipv4Addr { bits: 0 }), port: 0 };
                let mut c = FlowContext::new(local, remote_peer);
                c.application_layer_protocol = Some(
                    if https(dst) {
                        ApplicationProtocol::H2
                    } else {
                        ApplicationProtocol::Http11
                    },
                );
                Ok((n, c))
            },
            None => Err("next is gone".to_string()),
        }
    }

    /// The connection over a stream that was opened for a URI.
    pub fn connected<S>(&self, dst: &UriParts, stream: S) -> (r: CompatStreamAdapter<S>)
        ensures
            r.stream == stream,
            r.use_h2 == is_https(dst@),
    {
        CompatStreamAdapter { stream, use_h2: https(dst) }
    }
}

// ---- Laws ----
/// A client of a URI goes to the host and the port that the URI names, or to port 443 for `https` and 80
/// otherwise, and speaks HTTP/2 exactly for `https`. A name gets a dot at its end.
pub proof fn clients_go_where_the_uri_says(
    c: &FlowAdapterConnector<u8>,
    dst: &UriParts,
    r: Result<(&u8, FlowContext), String>,
    stream: u8,
    s: CompatStreamAdapter<u8>,
    host: Seq<char>,
)
    requires
        dst@.host == Some(host),
        host.len() > 0 && host[0] != '[' && host.last() != ']',
        call_ensures(FlowAdapterConnector::<u8>::call, (c, dst), r),
        call_ensures(FlowAdapterConnector::<u8>::connected::<u8>, (c, dst, stream), s),
    ensures
        r is Ok <==> c.next is Some,
        r matches Ok((n, f)) ==> {
            &&& c.next == Some(*n)
            &&& dst@.port matches Some(p) ==> f.remote_peer.port == p
            &&& dst@.port is None && dst@.scheme == Some("https"@) ==> f.remote_peer.port == 443
            &&& dst@.port is None && dst@.scheme != Some("https"@) ==> f.remote_peer.port == 80
            &&& ip_of(host) matches Some(ip) ==> f.remote_peer@.host == HostView::Ip(ip)
            &&& ip_of(host) is None && host.last() == '.' ==> f.remote_peer@.host
                == HostView::DomainName(host)
            &&& ip_of(host) is None && host.last() != '.' ==> f.remote_peer@.host
                == HostView::DomainName(host + seq!['.'])
            &&& f.application_layer_protocol == Some(ApplicationProtocol::H2) <==> dst@.scheme
                == Some("https"@)
            &&& f.application_layer_protocol == Some(ApplicationProtocol::Http11) <==> dst@.scheme
                != Some("https"@)
        },
        s.stream == stream,
        s.use_h2 <==> dst@.scheme == Some("https"@),
{
    assert(bare_host_spec(host) == host);
    assert(host.push('.') =~= host + seq!['.']);
}

/// The brackets around an IPv6 address are no part of it.
pub proof fn brackets_are_dropped(inner: Seq<char>)
    requires
        inner.len() > 0,
        inner[0] != '[',
        inner.last() != ']',
    ensures
        bare_host_spec(seq!['['] + inner + seq![']']) == inner,
        bare_host_spec(inner) == inner,
{
    let s = seq!['['] + inner + seq![']'];
    let t = inner + seq![']'];
    assert(s.drop_first() =~= t);
    reveal_with_fuel(trim_start_char, 2);
    assert(t[0] == inner[0]);
    reveal_with_fuel(trim_end_char, 2);
    assert(t.drop_last() =~= inner);
}

/// A connection for a URI is spoken on with HTTP/2 exactly where its scheme is `https`.
pub proof fn secure_connections_speak_h2(
    f: &FlowAdapterConnector<u8>,
    dst: &UriParts,
    stream: u8,
    r: CompatStreamAdapter<u8>,
)
    requires
        call_ensures(FlowAdapterConnector::<u8>::connected::<u8>, (f, dst, stream), r),
    ensures
        r.stream == stream,
        r.use_h2 <==> dst@.scheme == Some("https"@),
{
}

} // verus!
