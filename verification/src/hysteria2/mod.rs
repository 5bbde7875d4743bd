//! The Hysteria2 protocol.
pub mod codec;
pub mod connection;

use vstd::prelude::*;
use vstd::slice::slice_to_vec;
use vstd::utf8::encode_utf8;

use crate::conn_slot::ConnSlot;

verus! {

/// How to reach a Hysteria2 server.
#[derive(Debug, Clone)]
pub struct Hy2Options {
    pub name: String,
    pub server: String,
    pub port: u16,
    pub password: String,
    pub sni: Option<String>,
    pub skip_cert_verify: bool,
    pub alpn: Vec<Vec<u8>>,
    pub disable_mtu_discovery: bool,
    /// The key of the Salamander obfuscation.
    pub obfs: Option<String>,
}

/// Opens flows through a Hysteria2 server, over the one connection that it keeps.
pub struct Hy2Handler<C, R> {
    pub opts: Hy2Options,
    pub conn: ConnSlot<C>,
    pub resolver: R,
}

/// The protocols that are offered: those that were configured, or `h3`.
pub open spec fn alpn_spec(alpn: Seq<Vec<u8>>) -> Seq<Seq<u8>> {
    if alpn.len() == 0 {
        seq![seq![0x68u8, 0x33]]
    } else {
        alpn.map_values(|p: Vec<u8>| p@)
    }
}

/// The protocols that are offered: those that were configured, or `h3`.
pub fn alpn_protocols(alpn: &Vec<Vec<u8>>) -> (r: Vec<Vec<u8>>)
    ensures
        r@.map_values(|p: Vec<u8>| p@) == alpn_spec(alpn@),
{
    if alpn.len() == 0 {
        let h3: Vec<u8> = vec![0x68, 0x33];
        assert(h3@ =~= seq![0x68u8, 0x33]);
        let r: Vec<Vec<u8>> = vec![h3];
        assert(r@.map_values(|p: Vec<u8>| p@) =~= alpn_spec(alpn@));
        return r;
    }
    copied_protocols(alpn)
}

/// Copies a list of protocols.
pub(crate) fn copied_protocols(alpn: &Vec<Vec<u8>>) -> (r: Vec<Vec<u8>>)
    ensures
        r@.map_values(|p: Vec<u8>| p@) == alpn@.map_values(|p: Vec<u8>| p@),
{
    let mut r: Vec<Vec<u8>> = Vec::new();
    let mut i: usize = 0;
    while i < alpn.len()
        invariant
            i <= alpn@.len(),
            r@.len() == i,
            forall|j: int| 0 <= j < i ==> (#[trigger] r@[j])@ == alpn@[j]@,
        decreases alpn@.len() - i,
    {
        let p = alpn[i].clone();
        assert(p@ =~= alpn@[i as int]@);
        r.push(p);
        i += 1;
    }
    assert(r@.map_values(|p: Vec<u8>| p@) =~= alpn@.map_values(|p: Vec<u8>| p@));
    r
}

/// The name that the certificate of the server is checked against: the one that was configured, or
/// the server itself.
pub fn server_name(opts: &Hy2Options) -> (r: String)
    ensures
        r@ == (match opts.sni {
            Some(sni) => sni@,
            None => opts.server@,
        }),
{
    match &opts.sni {
        Some(sni) => sni.clone(),
        None => opts.server.clone(),
    }
}

/// How the QUIC endpoint towards the server is set up. Times are in seconds.
pub struct EndpointSetup {
    pub verify_certificates: bool,
    pub alpn: Vec<Vec<u8>>,
    pub mtu_discovery: bool,
    pub max_idle_timeout: u64,
    pub keep_alive_interval: u64,
    /// The key of the Salamander obfuscation, if datagrams are obfuscated.
    pub obfs_key: Option<Vec<u8>>,
}

impl<C, R> Hy2Handler<C, R> {
    /// How the QUIC endpoint towards the server is set up.
    pub fn init_endpoint(&self) -> (r: EndpointSetup)
        ensures
            r.verify_certificates == !self.opts.skip_cert_verify,
            r.alpn@.map_values(|p: Vec<u8>| p@) == alpn_spec(self.opts.alpn@),
            r.mtu_discovery == !self.opts.disable_mtu_discovery,
            r.max_idle_timeout == 300,
            r.keep_alive_interval == 10,
            match (self.opts.obfs, r.obfs_key) {
                (Some(key), Some(bytes)) => bytes@ == encode_utf8(key@),
                (None, None) => true,
                _ => false,
            },
    {
        EndpointSetup {
            verify_certificates: !self.opts.skip_cert_verify,
            alpn: alpn_protocols(&self.opts.alpn),
            mtu_discovery: !self.opts.disable_mtu_discovery,
            max_idle_timeout: 300,
            keep_alive_interval: 10,
            obfs_key: match &self.opts.obfs {
                Some(key) => Some(slice_to_vec(key.as_str().as_bytes())),
                None => None,
            },
        }
    }

    /// What is sent through a new flow at once: the data that came with it, if any. None of it is
    /// handed back.
    pub fn create_outbound<'a>(&self, initial_data: &'a [u8]) -> (r: Option<&'a [u8]>)
        ensures
            r == (if initial_data@.len() == 0 {
                None
            } else {
                Some(initial_data)
            }),
    {
        if initial_data.len() == 0 {
            None
        } else {
            Some(initial_data)
        }
    }

    pub fn new(opts: Hy2Options, resolver: R) -> (h: Self)
        ensures
            h.opts == opts,
            h.conn.conn is None,
            h.resolver == resolver,
    {
        Hy2Handler { opts, conn: ConnSlot::new(), resolver }
    }
}

// ---- Laws ----
/// The protocols that are offered are those that were configured, in their order, or `h3` where none
/// were; the name of the certificate is the configured one, or the server.
pub proof fn endpoints_follow_the_options<C, R>(
    h: &Hy2Handler<C, R>,
    e: EndpointSetup,
    name: String,
    data: &[u8],
    r: Option<&[u8]>,
)
    requires
        call_ensures(Hy2Handler::<C, R>::init_endpoint, (h,), e),
        call_ensures(server_name, (&h.opts,), name),
        call_ensures(Hy2Handler::<C, R>::create_outbound, (h, data), r),
    ensures
        e.verify_certificates <==> !h.opts.skip_cert_verify,
        e.mtu_discovery <==> !h.opts.disable_mtu_discovery,
        e.max_idle_timeout == 5 * 60,
        e.keep_alive_interval == 10,
        h.opts.alpn@.len() == 0 ==> e.alpn@.len() == 1 && e.alpn@[0]@ == encode_utf8("h3"@),
        h.opts.alpn@.len() > 0 ==> e.alpn@.len() == h.opts.alpn@.len() && forall|i: int|
            0 <= i < e.alpn@.len() ==> (#[trigger] e.alpn@[i])@ == h.opts.alpn@[i]@,
        e.obfs_key is Some <==> h.opts.obfs is Some,
        h.opts.obfs matches Some(k) ==> e.obfs_key->Some_0@ == encode_utf8(k@),
        h.opts.sni matches Some(n) ==> name@ == n@,
        h.opts.sni is None ==> name@ == h.opts.server@,
        data@.len() == 0 <==> r is None,
        r matches Some(d) ==> d@ == data@,
{
    let a = e.alpn@.map_values(|p: Vec<u8>| p@);
    assert(a.len() == e.alpn@.len());
    if h.opts.alpn@.len() == 0 {
        assert(a[0] == e.alpn@[0]@);
        lemma_h3();
    } else {
        let b = h.opts.alpn@.map_values(|p: Vec<u8>| p@);
        assert forall|i: int| 0 <= i < e.alpn@.len() implies (#[trigger] e.alpn@[i])@
            == h.opts.alpn@[i]@ by {
            assert(a[i] == b[i]);
        }
    }
}

proof fn lemma_h3()
    ensures
        encode_utf8("h3"@) == seq![0x68u8, 0x33],
{
    reveal_strlit("h3");
    let s = "h3"@;
    assert(s =~= seq!['h', '3']);
    vstd::utf8::is_ascii_chars_encode_utf8(s);
    assert(encode_utf8(s) =~= seq![0x68u8, 0x33]);
}

} // verus!
