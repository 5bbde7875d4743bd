//! Sending flows to another peer than the one they ask for.
use vstd::prelude::*;

use crate::flow::error::FlowError;
use crate::flow::DestinationAddr;
use crate::flow::FlowContext;

verus! {

/// Says where flows go. It may say something else each time.
pub trait PeerProvider {
    fn get_peer(&self) -> DestinationAddr;
}

/// The context of a flow that goes to `peer`.
pub open spec fn towards(context: FlowContext, peer: DestinationAddr) -> FlowContext {
    FlowContext { remote_peer: peer, ..context }
}

/// Sends a flow to `peer`.
pub fn redirect(context: FlowContext, peer: DestinationAddr) -> (r: FlowContext)
    ensures
        r == towards(context, peer),
{
    FlowContext { remote_peer: peer, ..context }
}

/// Sends each stream to the peer that a provider names. `next` is `None` once the next handler is
/// gone.
pub struct StreamRedirectHandler<R, N> {
    pub remote_peer: R,
    pub next: Option<N>,
}

/// Opens each outbound to the peer that a provider names.
pub struct StreamRedirectOutboundFactory<R, N> {
    pub remote_peer: R,
    pub next: Option<N>,
}

/// Sends each datagram session to the peer that a provider names.
pub struct DatagramSessionRedirectHandler<R, N> {
    pub remote_peer: R,
    pub next: Option<N>,
}

/// Binds each datagram session to the peer that a provider names.
pub struct DatagramSessionRedirectFactory<R, N> {
    pub remote_peer: R,
    pub next: Option<N>,
}

/// A session whose datagrams all go to the peer that a provider names.
pub struct DatagramRedirectSession<R, L> {
    pub remote_peer: R,
    pub lower: L,
}

impl<R: PeerProvider, N> StreamRedirectHandler<R, N> {
    /// The next handler and the context that it is given; nothing where it is gone.
    pub fn on_stream(&self, context: FlowContext) -> (r: Option<(&N, FlowContext)>)
        ensures
            match r {
                Some((n, c)) => self.next == Some(*n) && exists|peer: DestinationAddr|
                    call_ensures(R::get_peer, (&self.remote_peer,), peer) && c == towards(
                        context,
                        peer,
                    ),
                None => self.next is None,
            },
    {
        match &self.next {
            Some(n) => {
                let peer = self.remote_peer.get_peer();
                Some((n, redirect(context, peer)))
            },
            None => None,
        }
    }
}

impl<R: PeerProvider, N> StreamRedirectOutboundFactory<R, N> {
    /// The next factory and the context that it is given.
    pub fn create_outbound(&self, context: FlowContext) -> (r: Result<(&N, FlowContext), FlowError>)
        ensures
            match r {
                Ok((n, c)) => self.next == Some(*n) && exists|peer: DestinationAddr|
                    call_ensures(R::get_peer, (&self.remote_peer,), peer) && c == towards(
                        context,
                        peer,
                    ),
                Err(e) => self.next is None && e == FlowError::NoOutbound,
            },
    {
        match &self.next {
            Some(n) => {
                let peer = self.remote_peer.get_peer();
                Ok((n, redirect(context, peer)))
            },
            None => Err(FlowError::NoOutbound),
        }
    }
}

impl<R: PeerProvider, L> DatagramRedirectSession<R, L> {
    /// Where a datagram goes instead of `remote_peer`.
    pub fn send_to(&self, remote_peer: DestinationAddr) -> (r: DestinationAddr)
        ensures
            call_ensures(R::get_peer, (&self.remote_peer,), r),
    {
        self.remote_peer.get_peer()
    }
}

impl<R: PeerProvider + Clone, N> DatagramSessionRedirectHandler<R, N> {
    /// The next handler, and the session and the context that it is given; nothing where it is
    /// gone.
    pub fn on_session<L>(&self, session: L, context: FlowContext) -> (r: Option<
        (&N, DatagramRedirectSession<R, L>, FlowContext),
    >)
        ensures
            match r {
                Some((n, s, c)) => self.next == Some(*n) && cloned(self.remote_peer, s.remote_peer)
                    && s.lower == session && exists|peer: DestinationAddr|
                    call_ensures(R::get_peer, (&s.remote_peer,), peer) && c == towards(
                        context,
                        peer,
                    ),
                None => self.next is None,
            },
    {
        match &self.next {
            Some(n) => {
                let remote_peer = self.remote_peer.clone();
                let peer = remote_peer.get_peer();
                let s = DatagramRedirectSession { remote_peer, lower: session };
                Some((n, s, redirect(context, peer)))
            },
            None => None,
        }
    }
}

impl<R: PeerProvider + Clone, N> DatagramSessionRedirectFactory<R, N> {
    /// The next factory and the context that it binds with.
    pub fn bind(&self, context: FlowContext) -> (r: Result<(&N, FlowContext), FlowError>)
        ensures
            match r {
                Ok((n, c)) => self.next == Some(*n) && exists|peer: DestinationAddr|
                    call_ensures(R::get_peer, (&self.remote_peer,), peer) && c == towards(
                        context,
                        peer,
                    ),
                Err(e) => self.next is None && e == FlowError::NoOutbound,
            },
    {
        match &self.next {
            Some(n) => {
                let peer = self.remote_peer.get_peer();
                Ok((n, redirect(context, peer)))
            },
            None => Err(FlowError::NoOutbound),
        }
    }

    /// The session over what the next factory bound.
    pub fn on_bound<L>(&self, lower: L) -> (r: DatagramRedirectSession<R, L>)
        ensures
            cloned(self.remote_peer, r.remote_peer),
            r.lower == lower,
    {
        DatagramRedirectSession { remote_peer: self.remote_peer.clone(), lower }
    }
}

/// A flow that is redirected goes to the new peer; where it comes from, and all else that is known of it,
/// stays.
pub proof fn only_the_peer_changes(context: FlowContext, peer: DestinationAddr, r: FlowContext)
    requires
        call_ensures(redirect, (context, peer), r),
    ensures
        r.remote_peer == peer,
        r.local_peer == context.local_peer,
        r.af_sensitive == context.af_sensitive,
        r.application_layer_protocol == context.application_layer_protocol,
{
}

/// Streams, outbounds, sessions and their datagrams all go to a peer that the provider named, and only
/// where there is a next handler.
pub proof fn flows_go_to_the_named_peer<R: PeerProvider + Clone>(
    h: &StreamRedirectHandler<R, u8>,
    f: &StreamRedirectOutboundFactory<R, u8>,
    s: &DatagramRedirectSession<R, u8>,
    b: &DatagramSessionRedirectFactory<R, u8>,
    context: FlowContext,
    asked: DestinationAddr,
    peer: DestinationAddr,
    streamed: Option<(&u8, FlowContext)>,
    opened: Result<(&u8, FlowContext), FlowError>,
    sent: DestinationAddr,
    bound: Result<(&u8, FlowContext), FlowError>,
)
    requires
        f.remote_peer == h.remote_peer,
        s.remote_peer == h.remote_peer,
        b.remote_peer == h.remote_peer,
        forall|p: DestinationAddr|
            call_ensures(R::get_peer, (&h.remote_peer,), p) ==> p == peer,
        call_ensures(StreamRedirectHandler::<R, u8>::on_stream, (h, context), streamed),
        call_ensures(StreamRedirectOutboundFactory::<R, u8>::create_outbound, (f, context), opened),
        call_ensures(DatagramRedirectSession::<R, u8>::send_to, (s, asked), sent),
        call_ensures(DatagramSessionRedirectFactory::<R, u8>::bind, (b, context), bound),
    ensures
        streamed is Some <==> h.next is Some,
        streamed matches Some((n, c)) ==> Some(*n) == h.next && c.remote_peer == peer
            && c.local_peer == context.local_peer,
        opened is Ok <==> f.next is Some,
        opened matches Ok((n, c)) ==> Some(*n) == f.next && c.remote_peer == peer && c.local_peer
            == context.local_peer,
        opened matches Err(e) ==> e == FlowError::NoOutbound,
        sent == peer,
        bound is Ok <==> b.next is Some,
        bound matches Ok((n, c)) ==> Some(*n) == b.next && c.remote_peer == peer && c.local_peer
            == context.local_peer,
        bound matches Err(e) ==> e == FlowError::NoOutbound,
{
}

} // verus!
