//! SOCKS5 UDP ASSOCIATE: the handshake on the TCP connection and the table of associations.
use std::collections::HashMap;

use vstd::prelude::*;
use vstd::slice::slice_subrange;

use crate::be::be_bytes;
use crate::be::push_be;
use crate::flow::error::FlowError;
use crate::flow::error::FlowResult;
use crate::flow::DestView;
use crate::flow::HostName;
use crate::flow::HostView;
use crate::net::IpAddr;
use crate::net::Ipv4Addr;
use crate::net::SocketAddr;
use crate::shadowsocks::util::parse_dest;
use crate::shadowsocks::util::parse_dest_spec;
use crate::socks5::get_cred_req;
use crate::socks5::negotiate;
use crate::socks5::opt_bytes;
use crate::socks5::NegotiationStatus;

verus! {

broadcast use vstd::std_specs::hash::group_hash_axioms;

pub enum AssociateStatus {
    NeedData,
    Failed(FlowError),
    /// The datagrams of `client_addr` are to be relayed; the handshake took `consumed` bytes.
    Done { client_addr: SocketAddr, consumed: usize },
}

pub struct AssociateProgress {
    pub reply: Vec<u8>,
    pub status: AssociateStatus,
}

#[verifier::ext_equal]
pub enum AssociateStatusView {
    NeedData,
    Failed(FlowError),
    Done { client_addr: SocketAddr, consumed: int },
}

#[verifier::ext_equal]
pub struct AssociateView {
    pub reply: Seq<u8>,
    pub status: AssociateStatusView,
}

impl View for AssociateStatus {
    type V = AssociateStatusView;

    open spec fn view(&self) -> AssociateStatusView {
        match self {
            AssociateStatus::NeedData => AssociateStatusView::NeedData,
            AssociateStatus::Failed(e) => AssociateStatusView::Failed(*e),
            AssociateStatus::Done { client_addr, consumed } => AssociateStatusView::Done {
                client_addr: *client_addr,
                consumed: *consumed as int,
            },
        }
    }
}

impl View for AssociateProgress {
    type V = AssociateView;

    open spec fn view(&self) -> AssociateView {
        AssociateView { reply: self.reply@, status: self.status@ }
    }
}

/// Where a client that names no usable address is taken to send from: 127.0.0.1, port 0.
pub open spec fn default_client() -> SocketAddr {
    SocketAddr { ip: IpAddr::V4(Ipv4Addr { bits: 0x7f00_0001 }), port: 0 }
}

/// The address from which the client will send, told from the address in its request.
pub open spec fn client_addr_spec(requested: Option<(DestView, int)>) -> SocketAddr {
    match requested {
        Some((DestView { host: HostView::Ip(ip), port }, _)) if ip != IpAddr::V4(
            Ipv4Addr { bits: 0 },
        ) && port != 0 => SocketAddr { ip, port },
        _ => default_client(),
    }
}

/// "Succeeded", with the address of the relay.
pub open spec fn relay_reply(relay: SocketAddr) -> Seq<u8> {
    (match relay.ip {
        IpAddr::V4(ip) => seq![5u8, 0, 0, 1] + ip.octets_spec(),
        IpAddr::V6(ip) => seq![5u8, 0, 0, 4] + ip.octets_spec(),
    }) + be_bytes(relay.port as nat, 2)
}

/// The UDP ASSOCIATE handshake of the server as far as `input` goes. Wrong credentials end it.
pub open spec fn associate_spec(auth: Option<Seq<u8>>, relay: SocketAddr, input: Seq<u8>) -> AssociateView {
    let n = crate::socks5::negotiate_spec(auth, input);
    let failed = AssociateStatusView::Failed(FlowError::UnexpectedData);
    match n.status {
        crate::socks5::NegotiationStatusView::NeedData => AssociateView {
            reply: n.reply,
            status: AssociateStatusView::NeedData,
        },
        crate::socks5::NegotiationStatusView::Failed => AssociateView {
            reply: n.reply,
            status: failed,
        },
        crate::socks5::NegotiationStatusView::Ready { consumed: c, matched } => {
            if !matched {
                AssociateView { reply: n.reply, status: failed }
            } else if input.len() < c + 5 {
                AssociateView { reply: n.reply, status: AssociateStatusView::NeedData }
            } else if crate::socks5::request_len(input, c) is None || input[c] != 5 || input[c + 1]
                != 3 {
                AssociateView { reply: n.reply + crate::socks5::refusal(), status: failed }
            } else {
                let end = c + crate::socks5::request_len(input, c)->0;
                if input.len() < end {
                    AssociateView { reply: n.reply, status: AssociateStatusView::NeedData }
                } else {
                    AssociateView {
                        reply: n.reply + relay_reply(relay),
                        status: AssociateStatusView::Done {
                            client_addr: client_addr_spec(
                                parse_dest_spec(input.subrange(c + 3, end)),
                            ),
                            consumed: end,
                        },
                    }
                }
            }
        },
    }
}

/// The address from which the client will send, told from the address in its request.
fn client_addr_of(requested: &[u8]) -> (r: SocketAddr)
    ensures
        r == client_addr_spec(parse_dest_spec(requested@)),
{
    if let Some((dest, _)) = parse_dest(requested) {
        if let HostName::Ip(ip) = dest.host {
            if ip != IpAddr::V4(Ipv4Addr { bits: 0 }) && dest.port != 0 {
                return SocketAddr { ip, port: dest.port };
            }
        }
    }
    SocketAddr { ip: IpAddr::V4(Ipv4Addr { bits: 0x7f00_0001 }), port: 0 }
}

fn push_relay_reply(out: &mut Vec<u8>, relay: SocketAddr)
    ensures
        final(out)@ == old(out)@ + relay_reply(relay),
{
    out.push(5);
    out.push(0);
    out.push(0);
    match relay.ip {
        IpAddr::V4(ip) => {
            out.push(1);
            push_be(out, ip.bits as u128, 4);
        },
        IpAddr::V6(ip) => {
            out.push(4);
            push_be(out, ip.bits, 16);
        },
    }
    push_be(out, relay.port as u128, 2);
    assert(out@ =~= old(out)@ + relay_reply(relay));
}

/// Serves the handshake of a UDP ASSOCIATE, given all the bytes that came from the client so far.
pub fn handle_socks5_handshake(
    auth_req: Option<&[u8]>,
    udp_relay_addr: SocketAddr,
    input: &[u8],
) -> (r: AssociateProgress)
    ensures
        r@ == associate_spec(opt_bytes(auth_req), udp_relay_addr, input@),
        r.status matches AssociateStatus::Done { consumed, .. } ==> consumed <= input@.len(),
{
    let n = negotiate(auth_req, input);
    let mut reply = n.reply;
    let c: usize = match n.status {
        NegotiationStatus::NeedData => {
            return AssociateProgress { reply, status: AssociateStatus::NeedData };
        },
        NegotiationStatus::Failed => {
            return AssociateProgress {
                reply,
                status: AssociateStatus::Failed(FlowError::UnexpectedData),
            };
        },
        NegotiationStatus::Ready { consumed, matched } => {
            if !matched {
                return AssociateProgress {
                    reply,
                    status: AssociateStatus::Failed(FlowError::UnexpectedData),
                };
            }
            consumed
        },
    };
    if input.len() - c < 5 {
        return AssociateProgress { reply, status: AssociateStatus::NeedData };
    }
    let atyp: u8 = input[c + 3];
    if (atyp != 1 && atyp != 3 && atyp != 4) || input[c] != 5 || input[c + 1] != 3 {
        let r: [u8; 10] = [5, 7, 0, 1, 0, 0, 0, 0, 0, 0];
        let ghost before = reply@;
        reply.extend_from_slice(r.as_slice());
        assert(reply@ =~= before + crate::socks5::refusal());
        return AssociateProgress {
            reply,
            status: AssociateStatus::Failed(FlowError::UnexpectedData),
        };
    }
    let req_len: usize = if atyp == 1 {
        10
    } else if atyp == 3 {
        input[c + 4] as usize + 7
    } else {
        22
    };
    if input.len() - c < req_len {
        return AssociateProgress { reply, status: AssociateStatus::NeedData };
    }
    let client_addr = client_addr_of(slice_subrange(input, c + 3, c + req_len));
    push_relay_reply(&mut reply, udp_relay_addr);
    AssociateProgress {
        reply,
        status: AssociateStatus::Done { client_addr, consumed: c + req_len },
    }
}

/// Whether the TCP connection of an association is still there after a read: it is as long as
/// reads succeed and bring something.
pub fn keep_tcp_alive(read: &FlowResult<Vec<u8>>) -> (r: bool)
    ensures
        r == (read matches Ok(data) && data@.len() > 0),
{
    match read {
        Ok(data) => data.len() > 0,
        Err(_) => false,
    }
}

/// A client whose datagrams are relayed.
pub struct UdpAssociation<S> {
    pub client_addr: SocketAddr,
    pub relay_addr: SocketAddr,
    pub session: S,
}

/// The associations of all TCP connections, by the number of the session.
pub struct UdpAssociations<S> {
    pub by_session: HashMap<usize, UdpAssociation<S>>,
}

impl<S> View for UdpAssociations<S> {
    type V = Map<usize, UdpAssociation<S>>;

    open spec fn view(&self) -> Map<usize, UdpAssociation<S>> {
        self.by_session@
    }
}

impl<S> UdpAssociations<S> {
    pub fn new() -> (t: Self)
        ensures
            t@ == Map::<usize, UdpAssociation<S>>::empty(),
    {
        UdpAssociations { by_session: HashMap::new() }
    }

    /// Puts an association in the table, in place of the one that the session had.
    pub fn store_udp_association(
        &mut self,
        session_id: usize,
        client_addr: SocketAddr,
        relay_addr: SocketAddr,
        session: S,
    )
        ensures
            final(self)@ == old(self)@.insert(
                session_id,
                UdpAssociation { client_addr, relay_addr, session },
            ),
    {
        self.by_session.insert(session_id, UdpAssociation { client_addr, relay_addr, session });
    }

    /// Drops the association of a session.
    pub fn cleanup_udp_association(&mut self, session_id: usize)
        ensures
            final(self)@ == old(self)@.remove(session_id),
    {
        self.by_session.remove(&session_id);
    }
}

/// Accepts UDP ASSOCIATE requests for the relay at `udp_relay_addr`.
pub struct Socks5UdpAssociateHandler<S> {
    pub auth_req: Option<Vec<u8>>,
    pub udp_session_handler: S,
    pub udp_relay_addr: SocketAddr,
}

impl<S> Socks5UdpAssociateHandler<S> {
    pub fn new(
        cred: Option<(&[u8], &[u8])>,
        udp_session_handler: S,
        udp_relay_addr: SocketAddr,
    ) -> (h: Self)
        ensures
            crate::socks5::opt_vec(h.auth_req) == crate::socks5::auth_req_spec(cred),
            h.udp_session_handler == udp_session_handler,
            h.udp_relay_addr == udp_relay_addr,
    {
        let auth_req = match cred {
            Some(cred) => Some(get_cred_req(cred)),
            None => None,
        };
        Socks5UdpAssociateHandler { auth_req, udp_session_handler, udp_relay_addr }
    }

    /// Serves a client that has sent `input` so far.
    pub fn on_data(&self, input: &[u8]) -> (r: AssociateProgress)
        ensures
            r@ == associate_spec(
                crate::socks5::opt_vec(self.auth_req),
                self.udp_relay_addr,
                input@,
            ),
    {
        let auth = match &self.auth_req {
            Some(b) => Some(b.as_slice()),
            None => None,
        };
        handle_socks5_handshake(auth, self.udp_relay_addr, input)
    }
}

/// More bytes of the client never take back a reply, and never change how a handshake ended.
pub proof fn associate_extends(
    auth: Option<Seq<u8>>,
    relay: SocketAddr,
    input: Seq<u8>,
    more: Seq<u8>,
)
    ensures
        associate_spec(auth, relay, input).reply.is_prefix_of(
            associate_spec(auth, relay, input + more).reply,
        ),
        associate_spec(auth, relay, input).status !is NeedData ==> associate_spec(
            auth,
            relay,
            input + more,
        ) == associate_spec(auth, relay, input),
{
    crate::socks5::negotiate_extends(auth, input, more);
    let all = input + more;
    if let crate::socks5::NegotiationStatusView::Ready { consumed: c, .. } =
        crate::socks5::negotiate_spec(auth, input).status {
        if input.len() >= c + 5 && crate::socks5::request_len(input, c) is Some {
            let end = c + crate::socks5::request_len(input, c)->0;
            if input.len() >= end {
                assert(all.subrange(c + 3, end) =~= input.subrange(c + 3, end));
            }
        }
    }
}

/// Where credentials are wanted, an association is made only for a client that sent exactly them.
pub proof fn associated_only_with_credentials(a: Seq<u8>, relay: SocketAddr, input: Seq<u8>)
    requires
        associate_spec(Some(a), relay, input).status is Done,
    ensures
        exists|p: int|
            0 <= p && p + a.len() <= input.len() && #[trigger] input.subrange(p, p + a.len()) == a,
{
    let p = 2 + input[1];
    let end = p + crate::socks5::cred_len(input, p);
    assert(input.subrange(p, end) == a);
    assert(input.subrange(p, p + a.len()) == a);
}

/// An association that was stored is there until its session is cleaned up, and only then not.
pub proof fn association_lifetime<S>(
    table: Map<usize, UdpAssociation<S>>,
    session_id: usize,
    other: usize,
    entry: UdpAssociation<S>,
)
    requires
        other != session_id,
    ensures
        table.insert(session_id, entry)[session_id] == entry,
        !table.insert(session_id, entry).remove(session_id).contains_key(session_id),
        table.insert(session_id, entry).contains_key(other) == table.contains_key(other),
        table.remove(session_id).contains_key(other) == table.contains_key(other),
{
}

// ---- Laws: the handshake ----
/// A client that a server has taken, and that asks for an association, is told the address of the relay,
/// and its datagrams are those from the address that it named. Where it named none that can be used, no
/// address, a name or no port, they are those from 127.0.0.1.
pub proof fn associations_are_granted(
    auth: Option<&[u8]>,
    relay: SocketAddr,
    input: &[u8],
    before: Seq<u8>,
    reserved: u8,
    named: DestView,
    rest: Seq<u8>,
    r: AssociateProgress,
)
    requires
        crate::socks5::negotiate_spec(opt_bytes(auth), before).status matches
            crate::socks5::NegotiationStatusView::Ready { consumed, matched }
            && consumed == before.len() && matched,
        crate::shadowsocks::util::dest_fits(named),
        input@ == before + seq![5u8, 3, reserved] + crate::shadowsocks::util::dest_bytes(named)
            + rest,
        call_ensures(handle_socks5_handshake, (auth, relay, input), r),
    ensures
        r.reply@ == crate::socks5::negotiate_spec(opt_bytes(auth), before).reply + seq![5u8, 0, 0]
            + crate::shadowsocks::util::dest_bytes(
            DestView { host: HostView::Ip(relay.ip), port: relay.port },
        ),
        r.status matches AssociateStatus::Done { client_addr, consumed } && consumed + rest.len()
            == input@.len() && (if named.host is Ip && named.host->Ip_0 != IpAddr::V4(
            Ipv4Addr { bits: 0 },
        ) && named.port != 0 {
            client_addr.ip == named.host->Ip_0 && client_addr.port == named.port
        } else {
            client_addr.ip == IpAddr::V4(Ipv4Addr { bits: (127 * 0x100_0000 + 1) as u32 })
                && client_addr.port == 0
        }),
{
    let b = crate::shadowsocks::util::dest_bytes(named);
    let request = seq![5u8, 3, reserved] + b;
    let c = before.len() as int;
    let auth = opt_bytes(auth);
    let n = crate::socks5::negotiate_spec(auth, before);
    assert(input@ =~= before + (request + rest));
    crate::socks5::negotiate_extends(auth, before, request + rest);
    crate::shadowsocks::util::dest_round_trip(named, Seq::empty());
    crate::be::lemma_be_bytes_len(named.port as nat, 2);
    match named.host {
        HostView::Ip(IpAddr::V4(ip)) => {
            crate::be::lemma_be_bytes_len(ip.bits as nat, 4);
        },
        HostView::Ip(IpAddr::V6(ip)) => {
            crate::be::lemma_be_bytes_len(ip.bits as nat, 16);
        },
        HostView::DomainName(name) => {},
    }
    assert(input@[c] == 5 && input@[c + 1] == 3);
    assert(input@[c + 3] == b[0] && input@[c + 4] == b[1]);
    assert(crate::socks5::request_len(input@, c) == Some(3 + b.len() as int));
    assert(input@.subrange(c + 3, c + 3 + b.len()) =~= b + Seq::<u8>::empty());
    let relay_bytes = crate::shadowsocks::util::dest_bytes(
        DestView { host: HostView::Ip(relay.ip), port: relay.port },
    );
    assert(relay_reply(relay) =~= seq![5u8, 0, 0] + relay_bytes);
    assert(n.reply + relay_reply(relay) =~= n.reply + seq![5u8, 0, 0] + relay_bytes);
}

/// A client that a server has taken, and that asks for anything but an association, or names an address
/// of an unknown type, is told that its command is not supported, and turned down. One whose request is
/// not all there is waited for.
pub proof fn other_requests_are_refused(
    auth: Option<Seq<u8>>,
    relay: SocketAddr,
    before: Seq<u8>,
    rest: Seq<u8>,
)
    requires
        crate::socks5::negotiate_spec(auth, before).status matches
            crate::socks5::NegotiationStatusView::Ready { consumed, matched }
            && consumed == before.len() && matched,
    ensures
        rest.len() >= 5 && (rest[0] != 5 || rest[1] != 3 || (rest[3] != 1 && rest[3] != 3 && rest[3]
            != 4)) ==> associate_spec(auth, relay, before + rest) == (AssociateView {
            reply: crate::socks5::negotiate_spec(auth, before).reply
                + seq![5u8, 7, 0, 1, 0, 0, 0, 0, 0, 0],
            status: AssociateStatusView::Failed(FlowError::UnexpectedData),
        }),
        rest.len() < 5 ==> associate_spec(auth, relay, before + rest) == (AssociateView {
            reply: crate::socks5::negotiate_spec(auth, before).reply,
            status: AssociateStatusView::NeedData,
        }),
        rest.len() >= 5 && rest[0] == 5 && rest[1] == 3 && ((rest[3] == 1 && rest.len() < 10) || (
        rest[3] == 4 && rest.len() < 22) || (rest[3] == 3 && rest.len() < 7 + rest[4]))
            ==> associate_spec(auth, relay, before + rest) == (AssociateView {
            reply: crate::socks5::negotiate_spec(auth, before).reply,
            status: AssociateStatusView::NeedData,
        }),
{
    let input = before + rest;
    let c = before.len() as int;
    crate::socks5::negotiate_extends(auth, before, rest);
    if rest.len() >= 5 {
        assert(input[c] == rest[0] && input[c + 1] == rest[1] && input[c + 3] == rest[3]
            && input[c + 4] == rest[4]);
    }
    assert(crate::socks5::refusal() =~= seq![5u8, 7, 0, 1, 0, 0, 0, 0, 0, 0]);
}

/// A client with wrong credentials gets no association, whatever it asks for.
pub proof fn wrong_credentials_get_nothing(
    auth: Option<Seq<u8>>,
    relay: SocketAddr,
    input: Seq<u8>,
)
    requires
        crate::socks5::negotiate_spec(auth, input).status matches
            crate::socks5::NegotiationStatusView::Ready { matched, .. } && !matched,
    ensures
        associate_spec(auth, relay, input) == (AssociateView {
            reply: crate::socks5::negotiate_spec(auth, input).reply,
            status: AssociateStatusView::Failed(FlowError::UnexpectedData),
        }),
{
}

/// An association lives as long as something is read from its connection: neither the end nor an error
/// keeps it. While it lives it is found under its session, as it was stored; then it is gone, and no
/// other association is touched.
pub proof fn associations_live_with_their_connection(
    read: FlowResult<Vec<u8>>,
    alive: bool,
    t: &mut UdpAssociations<()>,
    u: &mut UdpAssociations<()>,
    id: usize,
    other: usize,
    client: SocketAddr,
    relay: SocketAddr,
)
    requires
        other != id,
        call_ensures(keep_tcp_alive, (&read,), alive),
        call_ensures(UdpAssociations::<()>::store_udp_association, (t, id, client, relay, ()), ()),
        *u == *final(t),
        call_ensures(UdpAssociations::<()>::cleanup_udp_association, (u, id), ()),
    ensures
        read is Err ==> !alive,
        read matches Ok(data) ==> (alive <==> data@.len() != 0),
        final(t)@.contains_key(id) && final(t)@[id].client_addr == client
            && final(t)@[id].relay_addr == relay,
        !final(u)@.contains_key(id),
        final(u)@.contains_key(other) <==> old(t)@.contains_key(other),
        old(t)@.contains_key(other) ==> final(u)@[other] == old(t)@[other],
{
}

} // verus!
