//! What a flow is: where it comes from and where it goes.
pub mod error;
pub mod tun;

use vstd::prelude::*;

use crate::net::IpAddr;
use crate::net::SocketAddr;
use crate::net_text::ip_text;
use crate::net_text::ip_text_spec;
use crate::text::chars_of;
use crate::text::decimal;
use crate::text::push_decimal;
use crate::text::string_of;

verus! {

/// A host by name or by address.
#[derive(Debug)]
pub enum HostName {
    DomainName(String),
    Ip(IpAddr),
}

/// The destination of a flow.
#[derive(Debug)]
pub struct DestinationAddr {
    pub host: HostName,
    pub port: u16,
}

/// What a `HostName` says.
pub enum HostView {
    DomainName(Seq<char>),
    Ip(IpAddr),
}

/// What a `DestinationAddr` says.
pub struct DestView {
    pub host: HostView,
    pub port: u16,
}

impl View for HostName {
    type V = HostView;

    open spec fn view(&self) -> HostView {
        match self {
            HostName::DomainName(s) => HostView::DomainName(s@),
            HostName::Ip(ip) => HostView::Ip(*ip),
        }
    }
}

impl View for DestinationAddr {
    type V = DestView;

    open spec fn view(&self) -> DestView {
        DestView { host: self.host@, port: self.port }
    }
}

impl Clone for HostName {
    fn clone(&self) -> (r: Self)
        ensures
            r == *self,
    {
        match self {
            HostName::DomainName(s) => HostName::DomainName(s.clone()),
            HostName::Ip(ip) => HostName::Ip(*ip),
        }
    }
}

impl Clone for DestinationAddr {
    fn clone(&self) -> (r: Self)
        ensures
            r == *self,
    {
        DestinationAddr { host: self.host.clone(), port: self.port }
    }
}

impl DestinationAddr {
    /// The destination that a socket address names.
    pub fn from_socket_addr(addr: SocketAddr) -> (r: DestinationAddr)
        ensures
            r@ == (DestView { host: HostView::Ip(addr.ip), port: addr.port }),
    {
        DestinationAddr { host: HostName::Ip(addr.ip), port: addr.port }
    }
}

/// A host in text: its name, or its address in text.
pub open spec fn host_text_spec(host: HostView) -> Seq<char> {
    match host {
        HostView::DomainName(name) => name,
        HostView::Ip(ip) => ip_text_spec(ip),
    }
}

/// A destination in text: its host, a colon and its port.
pub open spec fn dest_text_spec(dest: DestView) -> Seq<char> {
    host_text_spec(dest.host) + seq![':'] + decimal(dest.port as nat)
}

/// A destination in text.
pub fn dest_text(dest: &DestinationAddr) -> (r: String)
    ensures
        r@ == dest_text_spec(dest@),
{
    let mut text: Vec<char> = match &dest.host {
        HostName::DomainName(name) => chars_of(name.as_str()),
        HostName::Ip(ip) => chars_of(ip_text(*ip).as_str()),
    };
    text.push(':');
    push_decimal(&mut text, dest.port as u64);
    assert(text@ =~= dest_text_spec(dest@));
    string_of(text.as_slice())
}

/// The protocol that a flow is known to carry above its transport.
#[derive(Clone, Copy, PartialEq, Eq, Structural, Debug)]
pub enum ApplicationProtocol {
    Http11,
    H2,
}

/// What is known of a flow while it passes from handler to handler.
#[derive(Debug)]
pub struct FlowContext {
    pub local_peer: SocketAddr,
    pub remote_peer: DestinationAddr,
    /// Whether the address family of the remote peer has to be kept.
    pub af_sensitive: bool,
    pub application_layer_protocol: Option<ApplicationProtocol>,
}

impl FlowContext {
    pub fn new(local_peer: SocketAddr, remote_peer: DestinationAddr) -> (c: FlowContext)
        ensures
            c == (FlowContext {
                local_peer,
                remote_peer,
                af_sensitive: false,
                application_layer_protocol: None,
            }),
    {
        FlowContext { local_peer, remote_peer, af_sensitive: false, application_layer_protocol: None }
    }

    /// As `new`, for a flow whose address family has to be kept.
    pub fn new_af_sensitive(local_peer: SocketAddr, remote_peer: DestinationAddr) -> (c:
        FlowContext)
        ensures
            c == (FlowContext {
                local_peer,
                remote_peer,
                af_sensitive: true,
                application_layer_protocol: None,
            }),
    {
        FlowContext { local_peer, remote_peer, af_sensitive: true, application_layer_protocol: None }
    }
}

/// How much room a reader wants for the next piece of data.
#[derive(Clone, Copy, PartialEq, Eq, Structural, Debug)]
pub enum SizeHint {
    /// At least so many bytes are there.
    AtLeast(usize),
    /// Nothing is known; each piece takes so many bytes on top of its content.
    Unknown { overhead: usize },
}

impl SizeHint {
    pub open spec fn with_min_content_spec(self, min: nat) -> nat {
        match self {
            SizeHint::AtLeast(n) => n as nat,
            SizeHint::Unknown { overhead } => min + overhead as nat,
        }
    }

    /// The room to set aside where at least `min` bytes of content should fit.
    pub fn with_min_content(self, min: usize) -> (r: usize)
        requires
            self.with_min_content_spec(min as nat) <= usize::MAX,
        ensures
            r == self.with_min_content_spec(min as nat),
    {
        match self {
            SizeHint::AtLeast(n) => n,
            SizeHint::Unknown { overhead } => min + overhead,
        }
    }
}

// ---- Laws ----
/// A destination in text is its host, a colon and its port: an IPv4 address in four numbers with dots,
/// or the name.
pub proof fn destinations_in_text(
    dest: &DestinationAddr,
    r: String,
    a: u8,
    b: u8,
    c: u8,
    d: u8,
)
    requires
        call_ensures(dest_text, (dest,), r),
    ensures
        dest@.host matches HostView::DomainName(name) ==> r@ == name + seq![':'] + decimal(
            dest@.port as nat,
        ),
        dest@.host == HostView::Ip(
            IpAddr::V4(
                crate::net::Ipv4Addr {
                    bits: (a * 0x100_0000 + b * 0x1_0000 + c * 0x100 + d) as u32,
                },
            ),
        ) ==> r@ == decimal(a as nat) + seq!['.'] + decimal(b as nat) + seq!['.'] + decimal(
            c as nat,
        ) + seq!['.'] + decimal(d as nat) + seq![':'] + decimal(dest@.port as nat),
{
    let ip = crate::net::Ipv4Addr {
        bits: (a * 0x100_0000 + b * 0x1_0000 + c * 0x100 + d) as u32,
    };
    crate::net_text::lemma_parts(a, b, c, d, ip.bits);
}

/// Room is set aside for what is known to be there, else for the least that is wanted and what each
/// piece takes on top.
pub proof fn room_is_set_aside(hint: SizeHint, min: usize, r: usize)
    requires
        hint.with_min_content_spec(min as nat) <= usize::MAX,
        call_ensures(SizeHint::with_min_content, (hint, min), r),
    ensures
        hint matches SizeHint::AtLeast(n) ==> r == n,
        hint matches SizeHint::Unknown { overhead } ==> r == min + overhead,
{
}

} // verus!
