//! SOCKS5: key material, credentials, and the two sides of the CONNECT handshake.
//!
//! A side of a handshake is a function of the bytes that have arrived so far. It gives all the
//! bytes that have to have been sent by then, and whether the handshake is over.
use vstd::array::array_fill_for_copy_types;
use vstd::prelude::*;
use vstd::slice::slice_subrange;
use vstd::utf8::encode_utf8;

use crate::be::le_value;
use crate::be::lemma_le_value_bound;
use crate::be::lemma_le_value_push;
use crate::be::pow256;
use crate::deps::compare::ct_eq;
use crate::deps::digest::md5_digest;
use crate::deps::digest::md5_of_parts;
use crate::flow::error::FlowError;
use crate::flow::DestView;
use crate::flow::DestinationAddr;
use crate::flow::FlowContext;
use crate::flow::HostView;
use crate::net::IpAddr;
use crate::shadowsocks::util::dest_bytes;
use crate::shadowsocks::util::parse_dest;
use crate::shadowsocks::util::parse_dest_spec;
use crate::shadowsocks::util::write_dest;

verus! {

// ---- Keys and credentials ----
/// The `i`-th block of key material: the digest of the block before it and the password.
pub open spec fn key_block(password: Seq<u8>, i: nat) -> Seq<u8>
    decreases i,
{
    if i == 0 {
        md5_digest(password)
    } else {
        md5_digest(key_block(password, (i - 1) as nat) + password)
    }
}

/// Derives a key from a password: the first `K` bytes of the key material.
pub fn openssl_bytes_to_key<const K: usize>(password: &[u8]) -> (key: [u8; K])
    ensures
        forall|j: int|
            0 <= j < K ==> #[trigger] key@[j] == key_block(password@, (j / 16) as nat)[j % 16],
{
    let mut key: [u8; K] = array_fill_for_copy_types(0u8);
    let empty: Vec<u8> = Vec::new();
    let mut digest: Vec<u8> = md5_of_parts(empty.as_slice(), password);
    assert(empty@ + password@ =~= password@);
    let mut block: Ghost<nat> = Ghost(0);
    let mut at: usize = 0;
    let mut offset: usize = 0;
    while offset < K
        invariant
            offset <= K,
            at <= 16,
            digest@.len() == 16,
            offset == block@ * 16 + at,
            digest@ == key_block(password@, block@),
            forall|j: int|
                0 <= j < offset ==> #[trigger] key@[j] == key_block(password@, (j / 16) as nat)[j
                    % 16],
        decreases K - offset,
    {
        if at == 16 {
            digest = md5_of_parts(digest.as_slice(), password);
            at = 0;
            proof {
                block@ = block@ + 1;
            }
        }
        assert(offset as int / 16 == block@ && offset as int % 16 == at);
        key[offset] = digest[at];
        at += 1;
        offset += 1;
    }
    key
}

/// Adds one to a little-endian number of as many bytes as there are. The largest number becomes 0.
pub fn increase_num_buf(buf: &mut [u8])
    requires
        old(buf)@.len() > 0,
    ensures
        final(buf)@.len() == old(buf)@.len(),
        le_value(final(buf)@) == (le_value(old(buf)@) + 1) % pow256(old(buf)@.len()),
{
    let ghost start = old(buf)@;
    let mut c: u16 = 1;
    let mut n: usize = 0;
    proof {
        assert(start.subrange(0, 0) =~= Seq::empty());
    }
    while n < buf.len()
        invariant
            n <= buf@.len(),
            buf@.len() == start.len(),
            c <= 1,
            forall|j: int| n <= j < buf@.len() ==> buf@[j] == start[j],
            le_value(buf@.subrange(0, n as int)) + c * pow256(n as nat) == le_value(
                start.subrange(0, n as int),
            ) + 1,
        decreases buf@.len() - n,
    {
        let sum: u16 = c + buf[n] as u16;
        let ghost before = buf@;
        let ghost carry = c as int;
        let low: u8 = (sum % 256) as u8;
        buf[n] = low;
        c = sum / 256;
        proof {
            let p = pow256(n as nat);
            assert(buf@.subrange(0, n + 1) =~= before.subrange(0, n as int).push(low));
            assert(start.subrange(0, n + 1) =~= start.subrange(0, n as int).push(start[n as int]));
            lemma_le_value_push(before.subrange(0, n as int), low);
            lemma_le_value_push(start.subrange(0, n as int), start[n as int]);
            assert(low + 256 * c == carry + start[n as int]);
            assert(low * p + c * (256 * p) == carry * p + start[n as int] * p) by (nonlinear_arith)
                requires
                    low + 256 * c == carry + start[n as int],
            ;
        }
        n += 1;
    }
    proof {
        let m = pow256(start.len());
        assert(buf@.subrange(0, n as int) =~= buf@);
        assert(start.subrange(0, n as int) =~= start);
        lemma_le_value_bound(buf@);
        lemma_le_value_bound(start);
        if c == 0 {
            vstd::arithmetic::div_mod::lemma_small_mod(le_value(start) + 1, m);
        } else {
            assert(le_value(start) + 1 == m);
            vstd::arithmetic::div_mod::lemma_mod_self_0(m as int);
        }
    }
}

/// The user name and the password, each behind a byte with its length.
pub open spec fn cred_req_spec(user: Seq<u8>, password: Seq<u8>) -> Seq<u8> {
    seq![user.len() as u8] + user + seq![password.len() as u8] + password
}

pub fn get_cred_req(cred: (&[u8], &[u8])) -> (r: Vec<u8>)
    ensures
        r@ == cred_req_spec(cred.0@, cred.1@),
{
    let mut buf: Vec<u8> = Vec::new();
    let user_len: u8 = #[verifier::truncate] (cred.0.len() as u8);
    buf.push(user_len);
    buf.extend_from_slice(cred.0);
    let password_len: u8 = #[verifier::truncate] (cred.1.len() as u8);
    buf.push(password_len);
    buf.extend_from_slice(cred.1);
    assert(buf@ =~= cred_req_spec(cred.0@, cred.1@));
    buf
}

// ---- Method negotiation and authentication, shared by the servers ----
/// How far the negotiation of a method has come.
pub enum NegotiationStatus {
    NeedData,
    Failed,
    /// It took `consumed` bytes; `matched` says whether the credentials were the expected ones.
    Ready { consumed: usize, matched: bool },
}

pub struct Negotiation {
    pub reply: Vec<u8>,
    pub status: NegotiationStatus,
}

#[verifier::ext_equal]
pub enum NegotiationStatusView {
    NeedData,
    Failed,
    Ready { consumed: int, matched: bool },
}

#[verifier::ext_equal]
pub struct NegotiationView {
    pub reply: Seq<u8>,
    pub status: NegotiationStatusView,
}

impl View for NegotiationStatus {
    type V = NegotiationStatusView;

    open spec fn view(&self) -> NegotiationStatusView {
        match self {
            NegotiationStatus::NeedData => NegotiationStatusView::NeedData,
            NegotiationStatus::Failed => NegotiationStatusView::Failed,
            NegotiationStatus::Ready { consumed, matched } => NegotiationStatusView::Ready {
                consumed: *consumed as int,
                matched: *matched,
            },
        }
    }
}

impl View for Negotiation {
    type V = NegotiationView;

    open spec fn view(&self) -> NegotiationView {
        NegotiationView { reply: self.reply@, status: self.status@ }
    }
}

/// Whether `m` is among the methods that the greeting offers.
pub open spec fn offers(input: Seq<u8>, m: u8) -> bool {
    exists|i: int| 2 <= i < 2 + input[1] && input[i] == m
}

/// The length of the user name and password request that begins at `p`, once it can be told.
pub open spec fn cred_len(input: Seq<u8>, p: int) -> int {
    3 + input[p + 1] + input[p + 2 + input[p + 1]]
}

/// The negotiation as far as `input` goes. `auth` is the request that is expected of the client,
/// if it has to send one.
pub open spec fn negotiate_spec(auth: Option<Seq<u8>>, input: Seq<u8>) -> NegotiationView {
    let none = Seq::<u8>::empty();
    let p = 2 + input[1];
    if input.len() < 2 {
        NegotiationView { reply: none, status: NegotiationStatusView::NeedData }
    } else if input[0] != 5 {
        NegotiationView { reply: none, status: NegotiationStatusView::Failed }
    } else if input[1] == 0 {
        NegotiationView { reply: seq![5, 0xff], status: NegotiationStatusView::Failed }
    } else if input.len() < p {
        NegotiationView { reply: none, status: NegotiationStatusView::NeedData }
    } else {
        match auth {
            None => if offers(input, 0) {
                NegotiationView {
                    reply: seq![5, 0],
                    status: NegotiationStatusView::Ready { consumed: p, matched: true },
                }
            } else {
                NegotiationView { reply: seq![5, 0xff], status: NegotiationStatusView::Failed }
            },
            Some(a) => if !offers(input, 2) {
                NegotiationView { reply: seq![5, 0xff], status: NegotiationStatusView::Failed }
            } else if input.len() < p + 2 {
                NegotiationView { reply: seq![5, 2], status: NegotiationStatusView::NeedData }
            } else if input[p] != 1 {
                NegotiationView { reply: seq![5, 2], status: NegotiationStatusView::Failed }
            } else if input.len() < p + 3 + input[p + 1] || input.len() < p + cred_len(input, p) {
                NegotiationView { reply: seq![5, 2], status: NegotiationStatusView::NeedData }
            } else {
                let end = p + cred_len(input, p);
                let matched = input.subrange(p, end) == a;
                NegotiationView {
                    reply: if matched {
                        seq![5, 2, 1, 0]
                    } else {
                        seq![5, 2, 1, 0xff]
                    },
                    status: NegotiationStatusView::Ready { consumed: end, matched },
                }
            },
        }
    }
}

fn has_method(methods: &[u8], m: u8) -> (r: bool)
    ensures
        r == (exists|i: int| 0 <= i < methods@.len() && methods@[i] == m),
{
    let mut i: usize = 0;
    while i < methods.len()
        invariant
            i <= methods@.len(),
            forall|j: int| 0 <= j < i ==> methods@[j] != m,
        decreases methods@.len() - i,
    {
        if methods[i] == m {
            return true;
        }
        i += 1;
    }
    false
}

/// Negotiates the method and checks the credentials, as far as `input` goes.
pub fn negotiate(auth: Option<&[u8]>, input: &[u8]) -> (r: Negotiation)
    ensures
        r@ == negotiate_spec(
            match auth {
                Some(a) => Some(a@),
                None => None,
            },
            input@,
        ),
        r.status matches NegotiationStatus::Ready { consumed, .. } ==> consumed <= input@.len(),
{
    let len: usize = input.len();
    if len < 2 {
        return Negotiation { reply: Vec::new(), status: NegotiationStatus::NeedData };
    }
    if input[0] != 5 {
        return Negotiation { reply: Vec::new(), status: NegotiationStatus::Failed };
    }
    let n: usize = input[1] as usize;
    if n == 0 {
        let reply: Vec<u8> = vec![5, 0xff];
        assert(reply@ =~= seq![5u8, 0xff]);
        return Negotiation { reply, status: NegotiationStatus::Failed };
    }
    if len < 2 + n {
        return Negotiation { reply: Vec::new(), status: NegotiationStatus::NeedData };
    }
    let p: usize = 2 + n;
    let methods = slice_subrange(input, 2, p);
    proof {
        assert forall|m: u8|
            (exists|i: int| 0 <= i < methods@.len() && methods@[i] == m) == offers(input@, m) by {
            if offers(input@, m) {
                let i = choose|i: int| 2 <= i < 2 + input@[1] && input@[i] == m;
                assert(methods@[i - 2] == m);
            }
        }
    }
    match auth {
        None => {
            if has_method(methods, 0) {
                let reply: Vec<u8> = vec![5, 0];
                assert(reply@ =~= seq![5u8, 0]);
                Negotiation {
                    reply,
                    status: NegotiationStatus::Ready { consumed: p, matched: true },
                }
            } else {
                let reply: Vec<u8> = vec![5, 0xff];
                assert(reply@ =~= seq![5u8, 0xff]);
                Negotiation { reply, status: NegotiationStatus::Failed }
            }
        },
        Some(a) => {
            if !has_method(methods, 2) {
                let reply: Vec<u8> = vec![5, 0xff];
                assert(reply@ =~= seq![5u8, 0xff]);
                return Negotiation { reply, status: NegotiationStatus::Failed };
            }
            let mut reply: Vec<u8> = vec![5, 2];
            assert(reply@ =~= seq![5u8, 2]);
            if len < p + 2 {
                return Negotiation { reply, status: NegotiationStatus::NeedData };
            }
            if input[p] != 1 {
                return Negotiation { reply, status: NegotiationStatus::Failed };
            }
            let idlen: usize = input[p + 1] as usize;
            if len < p + 3 + idlen {
                return Negotiation { reply, status: NegotiationStatus::NeedData };
            }
            let pwlen: usize = input[p + 2 + idlen] as usize;
            let end: usize = p + 3 + idlen + pwlen;
            if len < end {
                return Negotiation { reply, status: NegotiationStatus::NeedData };
            }
            let matched = ct_eq(slice_subrange(input, p, end), a);
            reply.push(1);
            if matched {
                reply.push(0);
                assert(reply@ =~= seq![5u8, 2, 1, 0]);
            } else {
                reply.push(0xff);
                assert(reply@ =~= seq![5u8, 2, 1, 0xff]);
            }
            Negotiation { reply, status: NegotiationStatus::Ready { consumed: end, matched } }
        },
    }
}

// ---- The server's side of CONNECT ----
pub enum ServeStatus {
    NeedData,
    Failed(FlowError),
    /// The client asked for `dest`; the handshake took `consumed` bytes.
    Done { dest: DestinationAddr, consumed: usize },
}

pub struct ServeProgress {
    pub reply: Vec<u8>,
    pub status: ServeStatus,
}

#[verifier::ext_equal]
pub enum ServeStatusView {
    NeedData,
    Failed(FlowError),
    Done { dest: DestView, consumed: int },
}

#[verifier::ext_equal]
pub struct ServeView {
    pub reply: Seq<u8>,
    pub status: ServeStatusView,
}

impl View for ServeStatus {
    type V = ServeStatusView;

    open spec fn view(&self) -> ServeStatusView {
        match self {
            ServeStatus::NeedData => ServeStatusView::NeedData,
            ServeStatus::Failed(e) => ServeStatusView::Failed(*e),
            ServeStatus::Done { dest, consumed } => ServeStatusView::Done {
                dest: dest@,
                consumed: *consumed as int,
            },
        }
    }
}

impl View for ServeProgress {
    type V = ServeView;

    open spec fn view(&self) -> ServeView {
        ServeView { reply: self.reply@, status: self.status@ }
    }
}

/// The length of the request at `c`, told from its first five bytes.
pub open spec fn request_len(input: Seq<u8>, c: int) -> Option<int> {
    if input[c + 3] == 1 {
        Some(10)
    } else if input[c + 3] == 3 {
        Some(input[c + 4] + 7)
    } else if input[c + 3] == 4 {
        Some(22)
    } else {
        None
    }
}

/// "Command not supported", without an address.
pub open spec fn refusal() -> Seq<u8> {
    seq![5, 7, 0, 1, 0, 0, 0, 0, 0, 0]
}

/// "Succeeded", without an address.
pub open spec fn grant() -> Seq<u8> {
    seq![5, 0, 0, 1, 0, 0, 0, 0, 0, 0]
}

/// The CONNECT handshake of the server as far as `input` goes. The answer to the credentials is
/// sent either way, and the handshake goes on.
pub open spec fn serve_spec(auth: Option<Seq<u8>>, input: Seq<u8>) -> ServeView {
    let n = negotiate_spec(auth, input);
    let failed = ServeStatusView::Failed(FlowError::UnexpectedData);
    match n.status {
        NegotiationStatusView::NeedData => ServeView {
            reply: n.reply,
            status: ServeStatusView::NeedData,
        },
        NegotiationStatusView::Failed => ServeView { reply: n.reply, status: failed },
        NegotiationStatusView::Ready { consumed: c, .. } => {
            if input.len() < c + 5 {
                ServeView { reply: n.reply, status: ServeStatusView::NeedData }
            } else if request_len(input, c) is None || input[c] != 5 || input[c + 1] != 1 {
                ServeView { reply: n.reply + refusal(), status: failed }
            } else {
                let end = c + request_len(input, c)->0;
                if input.len() < end {
                    ServeView { reply: n.reply, status: ServeStatusView::NeedData }
                } else {
                    match parse_dest_spec(input.subrange(c + 3, end)) {
                        None => ServeView { reply: n.reply, status: failed },
                        Some((dest, _)) => ServeView {
                            reply: n.reply + grant(),
                            status: ServeStatusView::Done { dest, consumed: end },
                        },
                    }
                }
            }
        },
    }
}

/// Whether `input` holds a request with a name so long that the length of the request does not fit
/// in a byte.
pub open spec fn request_too_long_spec(auth: Option<Seq<u8>>, input: Seq<u8>) -> bool {
    negotiate_spec(auth, input).status matches NegotiationStatusView::Ready { consumed: c, .. }
        && input.len() >= c + 5 && input[c + 3] == 3 && input[c + 4] + 7 > 255
}

pub open spec fn opt_bytes(auth: Option<&[u8]>) -> Option<Seq<u8>> {
    match auth {
        Some(a) => Some(a@),
        None => None,
    }
}

/// Tests for a request that `serve_handshake` does not take.
pub fn request_too_long(auth_req: Option<&[u8]>, input: &[u8]) -> (r: bool)
    ensures
        r == request_too_long_spec(opt_bytes(auth_req), input@),
{
    let n = negotiate(auth_req, input);
    match n.status {
        NegotiationStatus::Ready { consumed: c, .. } => {
            input.len() - c >= 5 && input[c + 3] == 3 && input[c + 4] as usize + 7 > 255
        },
        _ => false,
    }
}

fn push_refusal(out: &mut Vec<u8>)
    ensures
        final(out)@ == old(out)@ + refusal(),
{
    let r: [u8; 10] = [5, 7, 0, 1, 0, 0, 0, 0, 0, 0];
    out.extend_from_slice(r.as_slice());
    assert(out@ =~= old(out)@ + refusal());
}

fn push_grant(out: &mut Vec<u8>)
    ensures
        final(out)@ == old(out)@ + grant(),
{
    let r: [u8; 10] = [5, 0, 0, 1, 0, 0, 0, 0, 0, 0];
    out.extend_from_slice(r.as_slice());
    assert(out@ =~= old(out)@ + grant());
}

/// Serves the handshake of a CONNECT, given all the bytes that came from the client so far.
pub fn serve_handshake(auth_req: Option<&[u8]>, input: &[u8]) -> (r: ServeProgress)
    requires
        !request_too_long_spec(opt_bytes(auth_req), input@),
    ensures
        r@ == serve_spec(opt_bytes(auth_req), input@),
        r.status matches ServeStatus::Done { consumed, .. } ==> consumed <= input@.len(),
{
    let n = negotiate(auth_req, input);
    let mut reply = n.reply;
    let c: usize = match n.status {
        NegotiationStatus::NeedData => {
            return ServeProgress { reply, status: ServeStatus::NeedData };
        },
        NegotiationStatus::Failed => {
            return ServeProgress { reply, status: ServeStatus::Failed(FlowError::UnexpectedData) };
        },
        NegotiationStatus::Ready { consumed, .. } => consumed,
    };
    if input.len() - c < 5 {
        return ServeProgress { reply, status: ServeStatus::NeedData };
    }
    let dst_len: u8 = match input[c + 3] {
        1 => 10,
        3 => input[c + 4] + 7,
        4 => 22,
        _ => {
            push_refusal(&mut reply);
            return ServeProgress { reply, status: ServeStatus::Failed(FlowError::UnexpectedData) };
        },
    };
    if input[c] != 5 || input[c + 1] != 1 {
        push_refusal(&mut reply);
        return ServeProgress { reply, status: ServeStatus::Failed(FlowError::UnexpectedData) };
    }
    if input.len() - c < dst_len as usize {
        return ServeProgress { reply, status: ServeStatus::NeedData };
    }
    let end: usize = c + dst_len as usize;
    match parse_dest(slice_subrange(input, c + 3, end)) {
        None => ServeProgress { reply, status: ServeStatus::Failed(FlowError::UnexpectedData) },
        Some((dest, _)) => {
            push_grant(&mut reply);
            ServeProgress { reply, status: ServeStatus::Done { dest, consumed: end } }
        },
    }
}

// ---- The client's side of CONNECT ----
pub enum PerformStatus {
    NeedData,
    Failed(FlowError),
    /// The server granted the request; its side of the handshake took `consumed` bytes.
    Done { consumed: usize },
}

pub struct PerformProgress {
    pub sent: Vec<u8>,
    pub status: PerformStatus,
}

#[verifier::ext_equal]
pub enum PerformStatusView {
    NeedData,
    Failed(FlowError),
    Done { consumed: int },
}

#[verifier::ext_equal]
pub struct PerformView {
    pub sent: Seq<u8>,
    pub status: PerformStatusView,
}

impl View for PerformStatus {
    type V = PerformStatusView;

    open spec fn view(&self) -> PerformStatusView {
        match self {
            PerformStatus::NeedData => PerformStatusView::NeedData,
            PerformStatus::Failed(e) => PerformStatusView::Failed(*e),
            PerformStatus::Done { consumed } => PerformStatusView::Done {
                consumed: *consumed as int,
            },
        }
    }
}

impl View for PerformProgress {
    type V = PerformView;

    open spec fn view(&self) -> PerformView {
        PerformView { sent: self.sent@, status: self.status@ }
    }
}

/// How much of the server's answer is left behind its first six bytes, told from its address type
/// and the byte after it.
pub open spec fn answer_rest(atyp: u8, first: u8) -> Option<int> {
    if atyp == 1 {
        Some(4)
    } else if atyp == 4 {
        Some(16)
    } else if atyp == 3 {
        Some(first - 1 + 2)
    } else {
        None
    }
}

/// The request for `dest`.
pub open spec fn request_bytes(dest: DestView) -> Seq<u8> {
    seq![5u8, 1, 0] + dest_bytes(dest)
}

/// The handshake of the client once the server has accepted it, from `p` on.
pub open spec fn request_phase(dest: DestView, sent: Seq<u8>, input: Seq<u8>, p: int) -> PerformView {
    let sent = sent + request_bytes(dest);
    let failed = PerformStatusView::Failed(FlowError::UnexpectedData);
    if input.len() < p + 2 {
        PerformView { sent, status: PerformStatusView::NeedData }
    } else if input[p] != 5 || input[p + 1] != 0 {
        PerformView { sent, status: failed }
    } else if input.len() < p + 6 {
        PerformView { sent, status: PerformStatusView::NeedData }
    } else {
        match answer_rest(input[p + 3], input[p + 4]) {
            None => PerformView { sent, status: failed },
            Some(n) => if input.len() < p + 6 + n {
                PerformView { sent, status: PerformStatusView::NeedData }
            } else {
                PerformView { sent, status: PerformStatusView::Done { consumed: p + 6 + n } }
            },
        }
    }
}

/// The CONNECT handshake of the client as far as the server's bytes `input` go.
pub open spec fn perform_spec(auth: Option<Seq<u8>>, dest: DestView, input: Seq<u8>) -> PerformView {
    let failed = PerformStatusView::Failed(FlowError::UnexpectedData);
    match auth {
        None => {
            let hello = seq![5u8, 1, 0];
            if input.len() < 2 {
                PerformView { sent: hello, status: PerformStatusView::NeedData }
            } else if input[0] != 5 || input[1] != 0 {
                PerformView { sent: hello, status: failed }
            } else {
                request_phase(dest, hello, input, 2)
            }
        },
        Some(a) => {
            let hello = seq![5u8, 1, 2];
            if input.len() < 2 {
                PerformView { sent: hello, status: PerformStatusView::NeedData }
            } else if input[0] != 5 || input[1] != 2 {
                PerformView { sent: hello, status: failed }
            } else if input.len() < 4 {
                PerformView { sent: hello + a, status: PerformStatusView::NeedData }
            } else if input[2] != 1 || input[3] != 0 {
                PerformView { sent: hello + a, status: failed }
            } else {
                request_phase(dest, hello + a, input, 4)
            }
        },
    }
}

/// Where the server's answer to the request begins.
pub open spec fn answer_at(auth: Option<Seq<u8>>) -> int {
    if auth is Some {
        4
    } else {
        2
    }
}

/// Whether the server took the greeting and the credentials, and granted the request.
pub open spec fn granted(auth: Option<Seq<u8>>, input: Seq<u8>) -> bool {
    let p = answer_at(auth);
    &&& input.len() >= p + 2
    &&& input[0] == 5
    &&& match auth {
        Some(_) => input[1] == 2 && input[2] == 1 && input[3] == 0,
        None => input[1] == 0,
    }
    &&& input[p] == 5
    &&& input[p + 1] == 0
}

/// Whether the server granted the request with an answer that carries an empty name.
pub open spec fn answer_name_empty_spec(auth: Option<Seq<u8>>, input: Seq<u8>) -> bool {
    let p = answer_at(auth);
    granted(auth, input) && input.len() >= p + 6 && input[p + 3] == 3 && input[p + 4] == 0
}

/// Tests for an answer that `perform_handshake` does not take.
pub fn answer_name_empty(auth_req: Option<&[u8]>, input: &[u8]) -> (r: bool)
    ensures
        r == answer_name_empty_spec(opt_bytes(auth_req), input@),
{
    let p: usize = if auth_req.is_some() {
        4
    } else {
        2
    };
    if input.len() < p + 6 {
        return false;
    }
    let accepted = match auth_req {
        Some(_) => input[1] == 2 && input[2] == 1 && input[3] == 0,
        None => input[1] == 0,
    };
    input[0] == 5 && accepted && input[p] == 5 && input[p + 1] == 0 && input[p + 3] == 3 && input[p
        + 4] == 0
}

fn perform_request(dest: &DestinationAddr, sent: Vec<u8>, input: &[u8], p: usize) -> (r:
    PerformProgress)
    requires
        p <= 4,
        input@.len() >= p + 6 && input@[p as int] == 5 && input@[p + 1] == 0 ==> !(input@[p + 3]
            == 3 && input@[p + 4] == 0),
    ensures
        r@ == request_phase(dest@, sent@, input@, p as int),
        r.status matches PerformStatus::Done { consumed } ==> consumed <= input@.len(),
{
    let mut sent = sent;
    let ghost before = sent@;
    sent.push(5);
    sent.push(1);
    sent.push(0);
    write_dest(&mut sent, dest);
    assert(sent@ =~= before + request_bytes(dest@));
    if input.len() < p + 2 {
        return PerformProgress { sent, status: PerformStatus::NeedData };
    }
    if input[p] != 5 || input[p + 1] != 0 {
        return PerformProgress { sent, status: PerformStatus::Failed(FlowError::UnexpectedData) };
    }
    if input.len() < p + 6 {
        return PerformProgress { sent, status: PerformStatus::NeedData };
    }
    let n: usize = match input[p + 3] {
        1 => 4,
        4 => 16,
        3 => input[p + 4] as usize - 1 + 2,
        _ => {
            return PerformProgress {
                sent,
                status: PerformStatus::Failed(FlowError::UnexpectedData),
            };
        },
    };
    if input.len() < p + 6 + n {
        PerformProgress { sent, status: PerformStatus::NeedData }
    } else {
        PerformProgress { sent, status: PerformStatus::Done { consumed: p + 6 + n } }
    }
}

/// Performs the handshake of a CONNECT to `dest`, given all the bytes that came from the server so
/// far.
pub fn perform_handshake(auth_req: Option<&[u8]>, dest: &DestinationAddr, input: &[u8]) -> (r:
    PerformProgress)
    requires
        !answer_name_empty_spec(opt_bytes(auth_req), input@),
    ensures
        r@ == perform_spec(opt_bytes(auth_req), dest@, input@),
        r.status matches PerformStatus::Done { consumed } ==> consumed <= input@.len(),
{
    match auth_req {
        None => {
            let sent: Vec<u8> = vec![5, 1, 0];
            assert(sent@ =~= seq![5u8, 1, 0]);
            if input.len() < 2 {
                PerformProgress { sent, status: PerformStatus::NeedData }
            } else if input[0] != 5 || input[1] != 0 {
                PerformProgress { sent, status: PerformStatus::Failed(FlowError::UnexpectedData) }
            } else {
                perform_request(dest, sent, input, 2)
            }
        },
        Some(a) => {
            let mut sent: Vec<u8> = vec![5, 1, 2];
            assert(sent@ =~= seq![5u8, 1, 2]);
            if input.len() < 2 {
                return PerformProgress { sent, status: PerformStatus::NeedData };
            }
            if input[0] != 5 || input[1] != 2 {
                return PerformProgress {
                    sent,
                    status: PerformStatus::Failed(FlowError::UnexpectedData),
                };
            }
            sent.extend_from_slice(a);
            assert(sent@ =~= seq![5u8, 1, 2] + a@);
            if input.len() < 4 {
                PerformProgress { sent, status: PerformStatus::NeedData }
            } else if input[2] != 1 || input[3] != 0 {
                PerformProgress { sent, status: PerformStatus::Failed(FlowError::UnexpectedData) }
            } else {
                perform_request(dest, sent, input, 4)
            }
        },
    }
}

// ---- Handlers ----
/// Accepts SOCKS5 clients and hands their flows to `next`.
pub struct Socks5Handler<N> {
    pub auth_req: Option<Vec<u8>>,
    pub next: N,
}

/// Opens flows through a SOCKS5 server that is reached through `next`.
pub struct Socks5Outbound<N> {
    pub auth_req: Option<Vec<u8>>,
    pub next: N,
}

/// The credentials request that goes with optional credentials.
pub open spec fn auth_req_spec(cred: Option<(&[u8], &[u8])>) -> Option<Seq<u8>> {
    match cred {
        Some((user, password)) => Some(cred_req_spec(user@, password@)),
        None => None,
    }
}

pub open spec fn opt_vec(v: Option<Vec<u8>>) -> Option<Seq<u8>> {
    match v {
        Some(b) => Some(b@),
        None => None,
    }
}

fn auth_req_of(cred: Option<(&[u8], &[u8])>) -> (r: Option<Vec<u8>>)
    ensures
        opt_vec(r) == auth_req_spec(cred),
{
    match cred {
        Some(cred) => Some(get_cred_req(cred)),
        None => None,
    }
}

fn opt_slice(v: &Option<Vec<u8>>) -> (r: Option<&[u8]>)
    ensures
        opt_bytes(r) == opt_vec(*v),
{
    match v {
        Some(b) => Some(b.as_slice()),
        None => None,
    }
}

impl<N> Socks5Handler<N> {
    pub fn new(cred: Option<(&[u8], &[u8])>, next: N) -> (h: Self)
        ensures
            opt_vec(h.auth_req) == auth_req_spec(cred),
            h.next == next,
    {
        Socks5Handler { auth_req: auth_req_of(cred), next }
    }

    /// Serves a client that has sent `input` so far. `None` for the input that `serve_handshake`
    /// does not take.
    pub fn on_data(&self, input: &[u8]) -> (r: Option<ServeProgress>)
        ensures
            match r {
                Some(p) => p@ == serve_spec(opt_vec(self.auth_req), input@),
                None => request_too_long_spec(opt_vec(self.auth_req), input@),
            },
            r is None <==> request_too_long_spec(opt_vec(self.auth_req), input@),
    {
        let auth = opt_slice(&self.auth_req);
        if request_too_long(auth, input) {
            None
        } else {
            Some(serve_handshake(auth, input))
        }
    }

    /// The flow that goes to the next handler once the client has asked for `dest`.
    pub fn destined(context: FlowContext, dest: DestinationAddr) -> (r: FlowContext)
        ensures
            r == (FlowContext { remote_peer: dest, af_sensitive: false, ..context }),
    {
        FlowContext {
            local_peer: context.local_peer,
            remote_peer: dest,
            af_sensitive: false,
            application_layer_protocol: context.application_layer_protocol,
        }
    }
}

impl<N> Socks5Outbound<N> {
    pub fn new(cred: Option<(&[u8], &[u8])>, next: N) -> (h: Self)
        ensures
            opt_vec(h.auth_req) == auth_req_spec(cred),
            h.next == next,
    {
        Socks5Outbound { auth_req: auth_req_of(cred), next }
    }

    /// Continues the handshake for `dest` after the server has sent `input` so far. `None` for the
    /// input that `perform_handshake` does not take.
    pub fn on_data(&self, dest: &DestinationAddr, input: &[u8]) -> (r: Option<PerformProgress>)
        ensures
            match r {
                Some(p) => p@ == perform_spec(opt_vec(self.auth_req), dest@, input@),
                None => answer_name_empty_spec(opt_vec(self.auth_req), input@),
            },
            r is None <==> answer_name_empty_spec(opt_vec(self.auth_req), input@),
    {
        let auth = opt_slice(&self.auth_req);
        if answer_name_empty(auth, input) {
            None
        } else {
            Some(perform_handshake(auth, dest, input))
        }
    }
}

// ---- Laws ----
/// More bytes of the greeting and the credentials never take back a reply, and never change an
/// outcome.
pub proof fn negotiate_extends(auth: Option<Seq<u8>>, input: Seq<u8>, more: Seq<u8>)
    ensures
        negotiate_spec(auth, input).reply.is_prefix_of(negotiate_spec(auth, input + more).reply),
        negotiate_spec(auth, input).status !is NeedData ==> negotiate_spec(auth, input + more)
            == negotiate_spec(auth, input),
{
    let all = input + more;
    if input.len() >= 2 {
        let p = 2 + input[1];
        if input.len() >= p {
            assert forall|m: u8| offers(input, m) == offers(all, m) by {
                if offers(input, m) {
                    let i = choose|i: int| 2 <= i < 2 + input[1] && input[i] == m;
                    assert(all[i] == m);
                }
                if offers(all, m) {
                    let i = choose|i: int| 2 <= i < 2 + all[1] && all[i] == m;
                    assert(input[i] == m);
                }
            }
            if input.len() >= p + 3 + input[p + 1] && input.len() >= p + cred_len(input, p) {
                let end = p + cred_len(input, p);
                assert(all.subrange(p, end) =~= input.subrange(p, end));
            }
        }
    }
}

/// It does not matter in which pieces the client's bytes arrive: more bytes never take back a
/// reply, and never change how a handshake ended.
pub proof fn serve_extends(auth: Option<Seq<u8>>, input: Seq<u8>, more: Seq<u8>)
    ensures
        serve_spec(auth, input).reply.is_prefix_of(serve_spec(auth, input + more).reply),
        serve_spec(auth, input).status !is NeedData ==> serve_spec(auth, input + more)
            == serve_spec(auth, input),
{
    negotiate_extends(auth, input, more);
    let all = input + more;
    let n = negotiate_spec(auth, input);
    if let NegotiationStatusView::Ready { consumed: c, .. } = n.status {
        if input.len() >= c + 5 && request_len(input, c) is Some {
            let end = c + request_len(input, c)->0;
            if input.len() >= end {
                assert(all.subrange(c + 3, end) =~= input.subrange(c + 3, end));
            }
        }
    }
}

/// The same of the client: more bytes of the server never take back what was sent, and never
/// change how a handshake ended.
pub proof fn perform_extends(auth: Option<Seq<u8>>, dest: DestView, input: Seq<u8>, more: Seq<u8>)
    ensures
        perform_spec(auth, dest, input).sent.is_prefix_of(
            perform_spec(auth, dest, input + more).sent,
        ),
        perform_spec(auth, dest, input).status !is NeedData ==> perform_spec(
            auth,
            dest,
            input + more,
        ) == perform_spec(auth, dest, input),
{
}

/// A client and a server that ask for no credentials understand each other: the server learns the
/// destination that the client wants, and each consumes exactly what the other sent.
pub proof fn connect_interop(dest: DestView, up: Seq<u8>, down: Seq<u8>)
    requires
        dest.host is DomainName ==> encode_utf8(dest.host->DomainName_0).len() <= 248,
    ensures
        ({
            let sent = seq![5u8, 1, 0] + request_bytes(dest);
            let reply = seq![5u8, 0] + grant();
            &&& serve_spec(None, sent + up) == (ServeView {
                reply,
                status: ServeStatusView::Done { dest, consumed: sent.len() as int },
            })
            &&& !request_too_long_spec(None, sent + up)
            &&& perform_spec(None, dest, reply + down) == (PerformView {
                sent,
                status: PerformStatusView::Done { consumed: reply.len() as int },
            })
        }),
{
    let sent = seq![5u8, 1, 0] + request_bytes(dest);
    let input = sent + up;
    let b = dest_bytes(dest);
    assert(input[2] == 0);
    assert(offers(input, 0));
    crate::shadowsocks::util::dest_round_trip(dest, Seq::empty());
    crate::be::lemma_be_bytes_len(dest.port as nat, 2);
    match dest.host {
        HostView::Ip(IpAddr::V4(ip)) => {
            crate::be::lemma_be_bytes_len(ip.bits as nat, 4);
        },
        HostView::Ip(IpAddr::V6(ip)) => {
            crate::be::lemma_be_bytes_len(ip.bits as nat, 16);
        },
        HostView::DomainName(name) => {},
    }
    assert(input[6] == b[0] && input[7] == b[1]);
    assert(request_len(input, 3) == Some(3 + b.len() as int));
    assert(input.subrange(6, b.len() as int + 6) =~= b + Seq::<u8>::empty());
    let reply = seq![5u8, 0] + grant();
    let back = reply + down;
    assert(back[0] == 5 && back[1] == 0 && back[2] == 5 && back[3] == 0 && back[4] == 0 && back[5]
        == 1);
}

/// A request for anything but CONNECT is refused, and answered with "command not supported".
pub proof fn other_commands_refused(auth: Option<Seq<u8>>, input: Seq<u8>)
    requires
        negotiate_spec(auth, input).status is Ready,
        input.len() >= negotiate_spec(auth, input).status->consumed + 5,
        input[negotiate_spec(auth, input).status->consumed + 1] != 1,
    ensures
        serve_spec(auth, input) == (ServeView {
            reply: negotiate_spec(auth, input).reply + refusal(),
            status: ServeStatusView::Failed(FlowError::UnexpectedData),
        }),
{
}

/// Where credentials are wanted, nobody is served without offering to send them.
pub proof fn served_only_with_method(a: Seq<u8>, input: Seq<u8>)
    requires
        serve_spec(Some(a), input).status is Done,
    ensures
        offers(input, 2),
{
}

// ---- Laws: what goes over the wire ----
/// The greeting of a client: the version and the methods that it offers.
pub open spec fn greeting(methods: Seq<u8>) -> Seq<u8> {
    seq![5u8, methods.len() as u8] + methods
}

/// The user name and the password of a client, as it sends them.
pub open spec fn login(user: Seq<u8>, password: Seq<u8>) -> Seq<u8> {
    seq![1u8, user.len() as u8] + user + seq![password.len() as u8] + password
}

proof fn lemma_offers(methods: Seq<u8>, rest: Seq<u8>, m: u8)
    requires
        1 <= methods.len() <= 255,
    ensures
        offers(greeting(methods) + rest, m) <==> methods.contains(m),
{
    let input = greeting(methods) + rest;
    assert(input[1] == methods.len());
    if methods.contains(m) {
        let i = choose|i: int| 0 <= i < methods.len() && methods[i] == m;
        assert(input[i + 2] == m);
    }
    if offers(input, m) {
        let i = choose|i: int| 2 <= i < 2 + input[1] && input[i] == m;
        assert(methods[i - 2] == m);
    }
}

/// A server without credentials takes every client that offers to go without, at whatever place of
/// its list, goes on right behind the greeting, and turns every other client down.
pub proof fn greeted_without_credentials(methods: Seq<u8>, rest: Seq<u8>)
    requires
        1 <= methods.len() <= 255,
    ensures
        negotiate_spec(None, greeting(methods) + rest) == (if methods.contains(0) {
            NegotiationView {
                reply: seq![5u8, 0],
                status: NegotiationStatusView::Ready {
                    consumed: 2 + methods.len() as int,
                    matched: true,
                },
            }
        } else {
            NegotiationView { reply: seq![5u8, 0xff], status: NegotiationStatusView::Failed }
        }),
{
    let input = greeting(methods) + rest;
    lemma_offers(methods, rest, 0);
    assert(input[0] == 5 && input[1] == methods.len());
}

/// A server with credentials asks every client for its own that offers to send them, at whatever place
/// of its list, and turns every other client down.
pub proof fn greeted_with_credentials(a: Seq<u8>, methods: Seq<u8>, rest: Seq<u8>)
    requires
        1 <= methods.len() <= 255,
    ensures
        ({
            let n = negotiate_spec(Some(a), greeting(methods) + rest);
            if methods.contains(2) {
                &&& seq![5u8, 2].is_prefix_of(n.reply)
                &&& rest.len() == 0 ==> n == (NegotiationView {
                    reply: seq![5u8, 2],
                    status: NegotiationStatusView::NeedData,
                })
            } else {
                n == (NegotiationView {
                    reply: seq![5u8, 0xff],
                    status: NegotiationStatusView::Failed,
                })
            }
        }),
{
    let input = greeting(methods) + rest;
    lemma_offers(methods, rest, 2);
    assert(input[0] == 5 && input[1] == methods.len());
}

/// The credentials of a client are taken exactly where they are those of the server, and it is told
/// so. The negotiation ends right behind them either way.
pub proof fn credentials_are_answered(
    a: Seq<u8>,
    methods: Seq<u8>,
    user: Seq<u8>,
    password: Seq<u8>,
    rest: Seq<u8>,
)
    requires
        1 <= methods.len() <= 255,
        methods.contains(2),
        user.len() <= 255,
        password.len() <= 255,
    ensures
        negotiate_spec(Some(a), greeting(methods) + login(user, password) + rest) == (
        NegotiationView {
            reply: if login(user, password) == a {
                seq![5u8, 2, 1, 0]
            } else {
                seq![5u8, 2, 1, 0xff]
            },
            status: NegotiationStatusView::Ready {
                consumed: 2 + methods.len() as int + 3 + user.len() + password.len(),
                matched: login(user, password) == a,
            },
        }),
{
    let l = login(user, password);
    let input = greeting(methods) + l + rest;
    assert(input =~= greeting(methods) + (l + rest));
    lemma_offers(methods, l + rest, 2);
    let p = 2 + methods.len() as int;
    assert(input[0] == 5 && input[1] == methods.len());
    assert(input[p] == l[0] && input[p + 1] == l[1]);
    assert(input[p + 2 + user.len()] == l[2 + user.len() as int]);
    assert(cred_len(input, p) == 3 + user.len() + password.len());
    assert(input.subrange(p, p + l.len()) =~= l);
}

/// A client that has said only a part is waited for: nothing is answered before its greeting is
/// whole, and before its credentials are whole only that they are wanted.
pub proof fn unfinished_clients_are_waited_for(
    auth: Option<Seq<u8>>,
    methods: Seq<u8>,
    user: Seq<u8>,
    password: Seq<u8>,
    n: int,
)
    requires
        1 <= methods.len() <= 255,
        user.len() <= 255,
        password.len() <= 255,
    ensures
        0 <= n < greeting(methods).len() ==> negotiate_spec(auth, greeting(methods).take(n)) == (
        NegotiationView { reply: Seq::empty(), status: NegotiationStatusView::NeedData }),
        0 <= n < login(user, password).len() && auth is Some && methods.contains(2)
            ==> negotiate_spec(auth, greeting(methods) + login(user, password).take(n)) == (
        NegotiationView { reply: seq![5u8, 2], status: NegotiationStatusView::NeedData }),
{
    let l = login(user, password);
    if 0 <= n < greeting(methods).len() {
        let input = greeting(methods).take(n);
        if n >= 2 {
            assert(input[0] == 5 && input[1] == methods.len());
        }
    }
    if 0 <= n < l.len() && auth is Some && methods.contains(2) {
        let rest = l.take(n);
        let input = greeting(methods) + rest;
        let p = 2 + methods.len() as int;
        lemma_offers(methods, rest, 2);
        assert(input[0] == 5 && input[1] == methods.len());
        if n >= 2 {
            assert(input[p] == rest[0] && input[p + 1] == rest[1]);
            assert(rest[0] == l[0] && rest[1] == l[1]);
            if n >= 3 + user.len() {
                assert(input[p + 2 + user.len()] == rest[2 + user.len() as int]);
                assert(rest[2 + user.len() as int] == l[2 + user.len() as int]);
            }
        }
    }
}

/// A client of another version, or without any method, is turned down.
pub proof fn strangers_are_turned_down(auth: Option<Seq<u8>>, input: Seq<u8>)
    requires
        input.len() >= 2,
        input[0] != 5 || input[1] == 0,
    ensures
        negotiate_spec(auth, input).status is Failed,
        negotiate_spec(auth, input).reply == (if input[0] != 5 {
            Seq::<u8>::empty()
        } else {
            seq![5u8, 0xff]
        }),
        serve_spec(auth, input) == (ServeView {
            reply: negotiate_spec(auth, input).reply,
            status: ServeStatusView::Failed(FlowError::UnexpectedData),
        }),
{
}

/// A client that a server has taken, and that asks for a destination, gets it: the server learns the
/// destination, tells the client that it succeeded, and leaves what is behind the request.
pub proof fn requests_are_granted(
    auth: Option<Seq<u8>>,
    before: Seq<u8>,
    reserved: u8,
    dest: DestView,
    rest: Seq<u8>,
)
    requires
        negotiate_spec(auth, before).status matches NegotiationStatusView::Ready { consumed, .. }
            && consumed == before.len(),
        dest.host is DomainName ==> encode_utf8(dest.host->DomainName_0).len() <= 248,
    ensures
        ({
            let request = seq![5u8, 1, reserved] + dest_bytes(dest);
            &&& serve_spec(auth, before + request + rest) == (ServeView {
                reply: negotiate_spec(auth, before).reply + seq![5u8, 0, 0, 1, 0, 0, 0, 0, 0, 0],
                status: ServeStatusView::Done {
                    dest,
                    consumed: before.len() as int + request.len(),
                },
            })
            &&& !request_too_long_spec(auth, before + request + rest)
        }),
{
    let b = dest_bytes(dest);
    let request = seq![5u8, 1, reserved] + b;
    let input = before + request + rest;
    let c = before.len() as int;
    assert(input =~= before + (request + rest));
    negotiate_extends(auth, before, request + rest);
    crate::shadowsocks::util::dest_round_trip(dest, Seq::empty());
    crate::be::lemma_be_bytes_len(dest.port as nat, 2);
    match dest.host {
        HostView::Ip(IpAddr::V4(ip)) => {
            crate::be::lemma_be_bytes_len(ip.bits as nat, 4);
        },
        HostView::Ip(IpAddr::V6(ip)) => {
            crate::be::lemma_be_bytes_len(ip.bits as nat, 16);
        },
        HostView::DomainName(name) => {},
    }
    assert(input[c] == 5 && input[c + 1] == 1);
    assert(input[c + 3] == b[0] && input[c + 4] == b[1]);
    assert(request_len(input, c) == Some(3 + b.len() as int));
    assert(input.subrange(c + 3, c + 3 + b.len()) =~= b + Seq::<u8>::empty());
    assert(grant() =~= seq![5u8, 0, 0, 1, 0, 0, 0, 0, 0, 0]);
}

/// A client that a server has taken, and that asks for anything but CONNECT, or for an address of an
/// unknown type, is told that its command is not supported, and turned down.
pub proof fn other_requests_are_refused(
    auth: Option<Seq<u8>>,
    before: Seq<u8>,
    rest: Seq<u8>,
)
    requires
        negotiate_spec(auth, before).status matches NegotiationStatusView::Ready { consumed, .. }
            && consumed == before.len(),
        rest.len() >= 5,
        rest[0] != 5 || rest[1] != 1 || (rest[3] != 1 && rest[3] != 3 && rest[3] != 4),
    ensures
        serve_spec(auth, before + rest) == (ServeView {
            reply: negotiate_spec(auth, before).reply + seq![5u8, 7, 0, 1, 0, 0, 0, 0, 0, 0],
            status: ServeStatusView::Failed(FlowError::UnexpectedData),
        }),
{
    let input = before + rest;
    let c = before.len() as int;
    negotiate_extends(auth, before, rest);
    assert(input[c] == rest[0] && input[c + 1] == rest[1] && input[c + 3] == rest[3]);
    assert(refusal() =~= seq![5u8, 7, 0, 1, 0, 0, 0, 0, 0, 0]);
}

/// What a server says to a client that it takes: the method, and that the credentials are right.
pub open spec fn acceptance(auth: Option<Seq<u8>>) -> Seq<u8> {
    if auth is Some {
        seq![5u8, 2, 1, 0]
    } else {
        seq![5u8, 0]
    }
}

/// What a client has said once a server took it.
pub open spec fn introduction(auth: Option<Seq<u8>>) -> Seq<u8> {
    match auth {
        Some(a) => seq![5u8, 1, 2] + a,
        None => seq![5u8, 1, 0],
    }
}

/// A client that a server takes sends its greeting, its credentials where it has some, and its
/// request, and is done right behind the answer of the server, whatever address is in it.
pub proof fn granted_requests_are_done(
    auth: Option<Seq<u8>>,
    dest: DestView,
    reserved: u8,
    bound: DestView,
    rest: Seq<u8>,
)
    requires
        bound.host is DomainName ==> 1 <= encode_utf8(bound.host->DomainName_0).len() <= 255,
    ensures
        ({
            let answer = acceptance(auth) + seq![5u8, 0, reserved] + dest_bytes(bound);
            &&& perform_spec(auth, dest, answer + rest) == (PerformView {
                sent: introduction(auth) + seq![5u8, 1, 0] + dest_bytes(dest),
                status: PerformStatusView::Done { consumed: answer.len() as int },
            })
            &&& !answer_name_empty_spec(auth, answer + rest)
        }),
{
    let b = dest_bytes(bound);
    let answer = acceptance(auth) + seq![5u8, 0, reserved] + b;
    let input = answer + rest;
    crate::be::lemma_be_bytes_len(bound.port as nat, 2);
    match bound.host {
        HostView::Ip(IpAddr::V4(ip)) => {
            crate::be::lemma_be_bytes_len(ip.bits as nat, 4);
        },
        HostView::Ip(IpAddr::V6(ip)) => {
            crate::be::lemma_be_bytes_len(ip.bits as nat, 16);
        },
        HostView::DomainName(name) => {},
    }
    let p = acceptance(auth).len() as int;
    assert(input[0] == 5);
    assert(input[p] == 5 && input[p + 1] == 0 && input[p + 3] == b[0] && input[p + 4] == b[1]);
    if auth is Some {
        assert(input[1] == 2 && input[2] == 1 && input[3] == 0);
    } else {
        assert(input[1] == 0);
    }
    assert(introduction(auth) + request_bytes(dest) =~= introduction(auth) + seq![5u8, 1, 0]
        + dest_bytes(dest));
    assert(perform_spec(auth, dest, input).sent =~= introduction(auth) + seq![5u8, 1, 0]
        + dest_bytes(dest));
}

/// A client asks for nothing before a server took it, and gives up where the server does not take it
/// or does not grant its request.
pub proof fn refused_clients_give_up(auth: Option<Seq<u8>>, dest: DestView, input: Seq<u8>)
    ensures
        ({
            let r = perform_spec(auth, dest, input);
            let n = acceptance(auth).len() as int;
            let failed = PerformStatusView::Failed(FlowError::UnexpectedData);
            &&& input.len() >= 2 && input.take(2) != acceptance(auth).take(2) ==> r == (PerformView {
                sent: introduction(auth).take(3),
                status: failed,
            })
            &&& input.len() >= n && input.take(n) != acceptance(auth) ==> r.status == failed
                && r.sent.is_prefix_of(introduction(auth))
            &&& input.len() >= n + 2 && input.take(n) == acceptance(auth) && input.subrange(
                n,
                n + 2,
            ) != seq![5u8, 0] ==> r.status == failed
        }),
{
    let n = acceptance(auth).len() as int;
    let acc = acceptance(auth);
    assert(introduction(auth).take(3) =~= (if auth is Some {
        seq![5u8, 1, 2]
    } else {
        seq![5u8, 1, 0]
    }));
    if input.len() >= 2 {
        assert(input.take(2) =~= seq![input[0], input[1]]);
        assert(acc.take(2) =~= seq![acc[0], acc[1]]);
        if input[0] == acc[0] && input[1] == acc[1] {
            assert(input.take(2) =~= acc.take(2));
        }
    }
    if input.len() >= n {
        if auth is Some {
            assert(input.take(4) =~= seq![input[0], input[1], input[2], input[3]]);
        } else {
            assert(input.take(2) =~= seq![input[0], input[1]]);
        }
    }
    if input.len() >= n + 2 {
        assert(input.subrange(n, n + 2) =~= seq![input[n], input[n + 1]]);
        if input.take(n) == acc {
            assert(input.take(n)[0] == acc[0] && input.take(n)[1] == acc[1]);
            if auth is Some {
                assert(input.take(n)[2] == acc[2] && input.take(n)[3] == acc[3]);
            }
            if input[n] == 5 && input[n + 1] == 0 {
                assert(input.subrange(n, n + 2) =~= seq![5u8, 0]);
            }
        }
    }
}

/// A client and a server with the same credentials request understand each other, where the request
/// is one that a server reads: each consumes exactly what the other sent.
pub proof fn credentials_interop(
    user: Seq<u8>,
    password: Seq<u8>,
    dest: DestView,
    up: Seq<u8>,
    down: Seq<u8>,
)
    requires
        user.len() <= 255,
        password.len() <= 255,
        dest.host is DomainName ==> encode_utf8(dest.host->DomainName_0).len() <= 248,
    ensures
        ({
            let a = login(user, password);
            let sent = introduction(Some(a)) + seq![5u8, 1, 0] + dest_bytes(dest);
            let reply = seq![5u8, 2, 1, 0, 5, 0, 0, 1, 0, 0, 0, 0, 0, 0];
            &&& serve_spec(Some(a), sent + up) == (ServeView {
                reply,
                status: ServeStatusView::Done { dest, consumed: sent.len() as int },
            })
            &&& perform_spec(Some(a), dest, reply + down) == (PerformView {
                sent,
                status: PerformStatusView::Done { consumed: reply.len() as int },
            })
        }),
{
    let a = login(user, password);
    let methods = seq![2u8];
    assert(methods[0] == 2);
    let before = introduction(Some(a));
    assert(before =~= greeting(methods) + a + Seq::<u8>::empty());
    credentials_are_answered(a, methods, user, password, Seq::empty());
    requests_are_granted(Some(a), before, 0, dest, up);
    let sent = before + seq![5u8, 1, 0] + dest_bytes(dest);
    assert(sent =~= before + (seq![5u8, 1, 0] + dest_bytes(dest)));
    let zero = DestView {
        host: HostView::Ip(IpAddr::V4(crate::net::Ipv4Addr { bits: 0 })),
        port: 0,
    };
    crate::shadowsocks::util::ipv4_destinations_on_the_wire(0, 0, 0, 0, 0);
    granted_requests_are_done(Some(a), dest, 0, zero, down);
    let reply = seq![5u8, 2, 1, 0, 5, 0, 0, 1, 0, 0, 0, 0, 0, 0];
    assert(acceptance(Some(a)) + seq![5u8, 0, 0] + dest_bytes(zero) =~= reply);
    assert(seq![5u8, 2, 1, 0] + seq![5u8, 0, 0, 1, 0, 0, 0, 0, 0, 0] =~= reply);
}

/// The request with the credentials has both behind their lengths.
pub proof fn credentials_on_the_wire(user: Seq<u8>, password: Seq<u8>)
    requires
        user.len() <= 255,
        password.len() <= 255,
    ensures
        ({
            let r = cred_req_spec(user, password);
            &&& r.len() == user.len() + password.len() + 2
            &&& r[0] == user.len()
            &&& r.subrange(1, 1 + user.len() as int) == user
            &&& r[1 + user.len() as int] == password.len()
            &&& r.subrange(2 + user.len() as int, r.len() as int) == password
        }),
{
    let r = cred_req_spec(user, password);
    assert(r.subrange(1, 1 + user.len() as int) =~= user);
    assert(r.subrange(2 + user.len() as int, r.len() as int) =~= password);
}

// ---- Laws: keys, and what is not taken ----
/// A key is the digest of the password, then the digest of that and the password, then the digest of that
/// and the password, as far as it goes.
pub proof fn keys_are_chained<const K: usize>(
    password: &[u8],
    key: [u8; K],
    first: Seq<u8>,
    second: Seq<u8>,
    third: Seq<u8>,
    j: int,
)
    requires
        call_ensures(openssl_bytes_to_key::<K>, (password,), key),
        first == md5_digest(password@),
        second == md5_digest(first + password@),
        third == md5_digest(second + password@),
        0 <= j < 16,
    ensures
        j < K ==> key@[j] == first[j],
        16 + j < K ==> key@[16 + j] == second[j],
        32 + j < K ==> key@[32 + j] == third[j],
{
    reveal_with_fuel(key_block, 4);
    assert(j / 16 == 0 && j % 16 == j);
    assert((16 + j) / 16 == 1 && (16 + j) % 16 == j);
    assert((32 + j) / 16 == 2 && (32 + j) % 16 == j);
}

/// A request is too long exactly where it asks for a name of more than 248 bytes.
pub proof fn long_names_are_not_taken(
    auth: Option<&[u8]>,
    input: &[u8],
    r: bool,
    before: Seq<u8>,
    command: u8,
    reserved: u8,
    dest: DestView,
    rest: Seq<u8>,
)
    requires
        negotiate_spec(opt_bytes(auth), before).status matches NegotiationStatusView::Ready {
            consumed,
            ..
        } && consumed == before.len(),
        crate::shadowsocks::util::dest_fits(dest),
        input@ == before + seq![5u8, command, reserved] + dest_bytes(dest) + rest,
        call_ensures(request_too_long, (auth, input), r),
    ensures
        r <==> (dest.host matches HostView::DomainName(name) && encode_utf8(name).len() > 248),
{
    let b = dest_bytes(dest);
    let request = seq![5u8, command, reserved] + b;
    let c = before.len() as int;
    assert(input@ =~= before + (request + rest));
    negotiate_extends(opt_bytes(auth), before, request + rest);
    crate::be::lemma_be_bytes_len(dest.port as nat, 2);
    match dest.host {
        HostView::Ip(IpAddr::V4(ip)) => {
            crate::be::lemma_be_bytes_len(ip.bits as nat, 4);
        },
        HostView::Ip(IpAddr::V6(ip)) => {
            crate::be::lemma_be_bytes_len(ip.bits as nat, 16);
        },
        HostView::DomainName(name) => {},
    }
    assert(input@[c + 3] == b[0] && input@[c + 4] == b[1]);
}

/// An answer of a server that took the client has an empty name exactly where it grants the request, its
/// address is a name, and that has no bytes.
pub proof fn empty_names_are_told(
    auth: Option<&[u8]>,
    input: &[u8],
    r: bool,
    code: u8,
    reserved: u8,
    kind: u8,
    len: u8,
    rest: Seq<u8>,
)
    requires
        rest.len() > 0,
        input@ == acceptance(opt_bytes(auth)) + seq![5u8, code, reserved, kind, len] + rest,
        call_ensures(answer_name_empty, (auth, input), r),
    ensures
        r <==> code == 0 && kind == 3 && len == 0,
{
    let p = acceptance(opt_bytes(auth)).len() as int;
    assert(input@[p] == 5 && input@[p + 1] == code && input@[p + 3] == kind && input@[p + 4] == len);
}

/// The flow of a client that is served goes to the destination that it asked for, from where it came, and
/// to whichever family of addresses it has.
pub proof fn served_flows_go_on(context: FlowContext, dest: DestinationAddr, r: FlowContext)
    requires
        call_ensures(Socks5Handler::<u8>::destined, (context, dest), r),
    ensures
        r.remote_peer == dest,
        r.local_peer == context.local_peer,
        !r.af_sensitive,
        r.application_layer_protocol == context.application_layer_protocol,
{
}

/// Credentials of another version turn a client down, whatever is in them.
pub proof fn other_logins_are_turned_down(a: Seq<u8>, methods: Seq<u8>, rest: Seq<u8>)
    requires
        1 <= methods.len() <= 255,
        methods.contains(2),
        rest.len() >= 2,
        rest[0] != 1,
    ensures
        negotiate_spec(Some(a), greeting(methods) + rest) == (NegotiationView {
            reply: seq![5u8, 2],
            status: NegotiationStatusView::Failed,
        }),
{
    let input = greeting(methods) + rest;
    lemma_offers(methods, rest, 2);
    assert(input[0] == 5 && input[1] == methods.len());
    assert(input[2 + methods.len() as int] == rest[0]);
}

/// A request for a name that is no text turns a client down without an answer.
pub proof fn names_have_to_be_text(
    auth: Option<Seq<u8>>,
    before: Seq<u8>,
    reserved: u8,
    name: Seq<u8>,
    high: u8,
    low: u8,
    rest: Seq<u8>,
)
    requires
        negotiate_spec(auth, before).status matches NegotiationStatusView::Ready { consumed, .. }
            && consumed == before.len(),
        name.len() <= 248,
        !vstd::utf8::valid_utf8(name),
    ensures
        serve_spec(
            auth,
            before + seq![5u8, 1, reserved, 3, name.len() as u8] + name + seq![high, low] + rest,
        ) == (ServeView {
            reply: negotiate_spec(auth, before).reply,
            status: ServeStatusView::Failed(FlowError::UnexpectedData),
        }),
{
    let request = seq![5u8, 1, reserved, 3, name.len() as u8] + name + seq![high, low];
    let input = before + seq![5u8, 1, reserved, 3, name.len() as u8] + name + seq![high, low] + rest;
    let c = before.len() as int;
    assert(input =~= before + (request + rest));
    negotiate_extends(auth, before, request + rest);
    assert(input[c] == 5 && input[c + 1] == 1 && input[c + 3] == 3 && input[c + 4] == name.len());
    let end = c + 7 + name.len();
    let d = input.subrange(c + 3, end);
    assert(d[0] == 3 && d[1] == name.len());
    assert(d.subrange(2, 2 + name.len() as int) =~= name);
}

} // verus!
