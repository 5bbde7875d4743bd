//! Flows through a TUIC server.
use vstd::prelude::*;

use crate::conn_slot::ConnSlot;
use crate::hysteria2::copied_protocols;

verus! {

#[derive(Clone, Copy, PartialEq, Eq, Structural, Debug)]
pub enum CongestionControl {
    Cubic,
    NewReno,
    Bbr,
}

/// How datagrams go through the server.
#[derive(Clone, Copy, PartialEq, Eq, Structural, Debug)]
pub enum UdpRelayMode {
    Native,
    Quic,
}

/// How to reach a TUIC server. Times are in milliseconds.
#[derive(Debug)]
pub struct HandlerOptions {
    pub name: String,
    pub server: String,
    pub port: u16,
    pub uuid: u128,
    pub password: String,
    pub udp_relay_mode: UdpRelayMode,
    pub disable_sni: bool,
    pub alpn: Vec<Vec<u8>>,
    pub heartbeat_interval: u64,
    pub reduce_rtt: bool,
    pub request_timeout: u64,
    pub idle_timeout: u64,
    pub congestion_controller: CongestionControl,
    pub max_open_stream: u64,
    pub gc_interval: u64,
    pub gc_lifetime: u64,
    pub send_window: u64,
    pub receive_window: u64,
    pub skip_cert_verify: bool,
    pub max_udp_relay_packet_size: u64,
    pub ip: Option<String>,
    pub sni: Option<String>,
}

/// How the QUIC endpoint towards the server is set up.
#[derive(Debug)]
pub struct EndpointSetup {
    pub verify_certificates: bool,
    /// The protocols that are offered.
    pub alpn: Vec<Vec<u8>>,
    pub early_data: bool,
    pub sni: bool,
    pub max_concurrent_bidi_streams: u64,
    pub max_concurrent_uni_streams: u64,
    pub send_window: u64,
    pub stream_receive_window: u64,
    pub max_idle_timeout: u64,
    pub congestion_controller: CongestionControl,
    pub zero_rtt_handshake: bool,
}

/// What is done before a flow can be opened.
#[derive(Clone, Copy, PartialEq, Eq, Structural, Debug)]
pub enum ConnStep {
    /// Connect for the first time.
    Connect,
    /// Connect again.
    Reconnect,
    /// Use the connection that is there.
    Use,
}

/// Opens flows through a TUIC server, over the one connection that it keeps.
pub struct Handler<C, R> {
    pub opts: HandlerOptions,
    pub conn: ConnSlot<C>,
    pub next_assoc_id: u16,
    pub resolver: R,
}

impl<C, R> Handler<C, R> {
    pub fn new(opts: HandlerOptions, resolver: R) -> (h: Self)
        ensures
            h.opts == opts,
            h.conn.conn is None,
            h.next_assoc_id == 0,
            h.resolver == resolver,
    {
        Handler { opts, conn: ConnSlot::new(), next_assoc_id: 0, resolver }
    }

    /// How the QUIC endpoint towards the server is set up.
    pub fn init_endpoint(&self) -> (r: EndpointSetup)
        ensures
            r.verify_certificates == !self.opts.skip_cert_verify,
            r.alpn@.map_values(|p: Vec<u8>| p@) == self.opts.alpn@.map_values(|p: Vec<u8>| p@),
            r.early_data,
            r.sni == !self.opts.disable_sni,
            r.max_concurrent_bidi_streams == self.opts.max_open_stream,
            r.max_concurrent_uni_streams == self.opts.max_open_stream,
            r.send_window == self.opts.send_window,
            r.stream_receive_window == self.opts.receive_window,
            r.max_idle_timeout == self.opts.idle_timeout,
            r.congestion_controller == self.opts.congestion_controller,
            r.zero_rtt_handshake == self.opts.reduce_rtt,
    {
        EndpointSetup {
            verify_certificates: !self.opts.skip_cert_verify,
            alpn: copied_protocols(&self.opts.alpn),
            early_data: true,
            sni: !self.opts.disable_sni,
            max_concurrent_bidi_streams: self.opts.max_open_stream,
            max_concurrent_uni_streams: self.opts.max_open_stream,
            send_window: self.opts.send_window,
            stream_receive_window: self.opts.receive_window,
            max_idle_timeout: self.opts.idle_timeout,
            congestion_controller: self.opts.congestion_controller,
            zero_rtt_handshake: self.opts.reduce_rtt,
        }
    }

    /// What is done before a flow can be opened. `open` says whether the connection that is there
    /// is still open. One that is not is given up, whatever comes of the next attempt.
    pub fn get_conn(&mut self, open: bool) -> (r: ConnStep)
        ensures
            r == (if old(self).conn.conn is None {
                ConnStep::Connect
            } else if !open {
                ConnStep::Reconnect
            } else {
                ConnStep::Use
            }),
            final(self).conn.conn == (if open {
                old(self).conn.conn
            } else {
                None
            }),
            final(self).opts == old(self).opts,
            final(self).next_assoc_id == old(self).next_assoc_id,
            final(self).resolver == old(self).resolver,
    {
        let there = match &self.conn.conn {
            Some(_) => true,
            None => false,
        };
        if !there {
            return ConnStep::Connect;
        }
        if !open {
            self.conn.on_connected(None);
            return ConnStep::Reconnect;
        }
        ConnStep::Use
    }

    /// What is sent through a new flow at once: the data that came with it, if any. None of it is
    /// handed back.
    pub fn create_outbound<'a>(&self, initial_data: &'a [u8]) -> (r: Option<&'a [u8]>)
        ensures
            r == (if initial_data@.len() == 0 {
                None
            } else {
                Some(initial_data)
            }),
    {
        if initial_data.len() == 0 {
            None
        } else {
            Some(initial_data)
        }
    }
}

// ---- Laws ----
/// A connection is made the first time, used while it is open, and made again once it is closed.
pub proof fn connections_are_made_when_needed<C, R>(h: &mut Handler<C, R>, open: bool, r: ConnStep)
    requires
        call_ensures(Handler::<C, R>::get_conn, (h, open), r),
    ensures
        r is Connect <==> old(h).conn.conn is None,
        r is Use <==> old(h).conn.conn is Some && open,
        r is Reconnect <==> old(h).conn.conn is Some && !open,
        r is Use ==> final(h).conn.conn == old(h).conn.conn,
        r is Reconnect ==> final(h).conn.conn is None,
        final(h).opts == old(h).opts,
{
}

/// The endpoint is set up as the options say, and the first data of a flow is sent as it is.
pub proof fn endpoints_follow_the_options<C, R>(
    h: &Handler<C, R>,
    e: EndpointSetup,
    data: &[u8],
    r: Option<&[u8]>,
)
    requires
        call_ensures(Handler::<C, R>::init_endpoint, (h,), e),
        call_ensures(Handler::<C, R>::create_outbound, (h, data), r),
    ensures
        e.verify_certificates <==> !h.opts.skip_cert_verify,
        e.sni <==> !h.opts.disable_sni,
        e.zero_rtt_handshake <==> h.opts.reduce_rtt,
        e.early_data,
        e.max_concurrent_bidi_streams == h.opts.max_open_stream,
        e.max_concurrent_uni_streams == h.opts.max_open_stream,
        e.send_window == h.opts.send_window,
        e.stream_receive_window == h.opts.receive_window,
        e.max_idle_timeout == h.opts.idle_timeout,
        e.congestion_controller == h.opts.congestion_controller,
        e.alpn@.len() == h.opts.alpn@.len(),
        forall|i: int| 0 <= i < e.alpn@.len() ==> (#[trigger] e.alpn@[i])@ == h.opts.alpn@[i]@,
        data@.len() == 0 <==> r is None,
        r matches Some(d) ==> d@ == data@,
{
    let (a, b) = (
        e.alpn@.map_values(|p: Vec<u8>| p@),
        h.opts.alpn@.map_values(|p: Vec<u8>| p@),
    );
    assert(a.len() == e.alpn@.len() && b.len() == h.opts.alpn@.len());
    assert forall|i: int| 0 <= i < e.alpn@.len() implies (#[trigger] e.alpn@[i])@
        == h.opts.alpn@[i]@ by {
        assert(a[i] == b[i]);
    }
}

} // verus!
