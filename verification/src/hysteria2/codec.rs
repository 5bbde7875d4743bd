//! Requests and responses on a Hysteria2 stream.
use bytes::BytesMut;
use vstd::prelude::*;
use vstd::utf8::decode_utf8;
use vstd::utf8::encode_utf8;
use vstd::utf8::valid_utf8;

use crate::be::be_bytes;
use crate::be::be_value;
use crate::be::pow256;
use crate::deps::bytes_mut::behind;
use crate::deps::bytes_mut::buf_advance;
use crate::deps::bytes_mut::buf_bytes;
use crate::deps::bytes_mut::buf_first;
use crate::deps::bytes_mut::buf_get_u16;
use crate::deps::bytes_mut::buf_get_u32;
use crate::deps::bytes_mut::buf_get_u64;
use crate::deps::bytes_mut::buf_get_u8;
use crate::deps::bytes_mut::buf_len;
use crate::deps::bytes_mut::buf_put_slice;
use crate::deps::bytes_mut::buf_put_u16;
use crate::deps::bytes_mut::buf_put_u32;
use crate::deps::bytes_mut::buf_put_u64;
use crate::deps::bytes_mut::buf_put_u8;
use crate::deps::bytes_mut::buf_split_to;
use crate::deps::random::random_u32;
use crate::flow::dest_text;
use crate::flow::dest_text_spec;
use crate::flow::DestView;
use crate::flow::DestinationAddr;
use crate::text::str_from_utf8;

verus! {

// ---- Integers of variable length ----
/// One more than the largest integer that can be written.
pub const VARINT_END: u64 = 0x4000_0000_0000_0000;

/// How many bytes an integer takes.
pub open spec fn varint_len(v: nat) -> nat {
    if v < 0x40 {
        1
    } else if v < 0x4000 {
        2
    } else if v < 0x4000_0000 {
        4
    } else {
        8
    }
}

/// An integer in its shortest form: the two high bits of the first byte tell the length.
pub open spec fn varint_bytes(v: nat) -> Seq<u8> {
    if v < 0x40 {
        seq![v as u8]
    } else if v < 0x4000 {
        be_bytes(v + 0x4000, 2)
    } else if v < 0x4000_0000 {
        be_bytes(v + 0x8000_0000, 4)
    } else {
        be_bytes(v + 0xc000_0000_0000_0000, 8)
    }
}

/// The length that the first byte of an integer tells.
pub open spec fn varint_len_of(first: u8) -> nat {
    if first < 0x40 {
        1
    } else if first < 0x80 {
        2
    } else if first < 0xc0 {
        4
    } else {
        8
    }
}

/// The integer that `s` begins with and how many bytes it takes, if it is all there.
pub open spec fn parse_varint(s: Seq<u8>) -> Option<(u64, nat)> {
    if s.len() == 0 || s.len() < varint_len_of(s[0]) {
        None
    } else {
        let n = varint_len_of(s[0]);
        let v = be_value(s.subrange(0, n as int));
        Some(
            (
                (if n == 1 {
                    v
                } else if n == 2 {
                    v % 0x4000
                } else if n == 4 {
                    v % 0x4000_0000
                } else {
                    v % 0x4000_0000_0000_0000
                }) as u64,
                n,
            ),
        )
    }
}

/// How many bytes an integer takes.
pub fn varint_size(x: u64) -> (n: usize)
    requires
        x < VARINT_END,
    ensures
        n == varint_len(x as nat),
        n == varint_bytes(x as nat).len(),
{
    proof {
        lemma_varint_len(x as nat);
    }
    if x < 0x40 {
        1
    } else if x < 0x4000 {
        2
    } else if x < 0x4000_0000 {
        4
    } else {
        8
    }
}

/// Appends an integer.
pub fn encode_varint(value: u64, buf: &mut BytesMut)
    requires
        value < VARINT_END,
    ensures
        buf_bytes(*final(buf)) == buf_bytes(*old(buf)) + varint_bytes(value as nat),
{
    if value < 0x40 {
        buf_put_u8(buf, value as u8);
        assert(buf_bytes(*buf) =~= buf_bytes(*old(buf)) + varint_bytes(value as nat));
    } else if value < 0x4000 {
        buf_put_u16(buf, value as u16 + 0x4000);
    } else if value < 0x4000_0000 {
        buf_put_u32(buf, value as u32 + 0x8000_0000);
    } else {
        buf_put_u64(buf, value + 0xc000_0000_0000_0000);
    }
}

/// Takes the integer that the buffer begins with. Where it is not all there, nothing is taken.
pub fn decode_varint(buf: &mut BytesMut) -> (r: Option<u64>)
    ensures
        match parse_varint(buf_bytes(*old(buf))) {
            Some((v, n)) => r == Some(v) && buf_bytes(*final(buf)) == behind(*old(buf), n as int),
            None => r is None && *final(buf) == *old(buf),
        },
{
    let len: usize = buf_len(buf);
    if len == 0 {
        return None;
    }
    let first: u8 = buf_first(buf);
    proof {
        crate::be::lemma_be_value_bound(buf_bytes(*buf).subrange(0, varint_len_of(first) as int));
        crate::be::lemma_pow256_values();
    }
    if first < 0x40 {
        proof {
            let s = buf_bytes(*buf).subrange(0, 1);
            assert(s.drop_last() =~= Seq::empty());
            assert(be_value(s) == be_value(s.drop_last()) * 256 + s.last() as nat);
        }
        Some(buf_get_u8(buf) as u64)
    } else if first < 0x80 {
        if len < 2 {
            return None;
        }
        Some(buf_get_u16(buf) as u64 % 0x4000)
    } else if first < 0xc0 {
        if len < 4 {
            return None;
        }
        Some(buf_get_u32(buf) as u64 % 0x4000_0000)
    } else {
        if len < 8 {
            return None;
        }
        Some(buf_get_u64(buf) % 0x4000_0000_0000_0000)
    }
}

proof fn lemma_varint_len(v: nat)
    ensures
        varint_bytes(v).len() == varint_len(v),
{
    crate::be::lemma_be_bytes_len(v + 0x4000, 2);
    crate::be::lemma_be_bytes_len(v + 0x8000_0000, 4);
    crate::be::lemma_be_bytes_len(v + 0xc000_0000_0000_0000, 8);
}

proof fn lemma_first_byte(v: nat, n: nat)
    requires
        n > 0,
        v < pow256(n),
    ensures
        be_bytes(v, n)[0] == v / pow256((n - 1) as nat),
    decreases n,
{
    crate::be::lemma_be_bytes_len(v, n);
    assert(pow256(n) == 256 * pow256((n - 1) as nat));
    if n == 1 {
        reveal_with_fuel(be_bytes, 2);
        assert(pow256(0) == 1);
        assert(v / 1 == v);
    } else {
        let m = (n - 1) as nat;
        let q = pow256((n - 2) as nat);
        assert(pow256(m) == 256 * q);
        crate::be::lemma_pow256_monotonic(0, (n - 2) as nat);
        crate::be::lemma_be_bytes_len(v / 256, m);
        lemma_first_byte(v / 256, m);
        vstd::arithmetic::div_mod::lemma_div_denominator(v as int, 256, q as int);
    }
}

/// An integer that was written is read back, whatever follows it, and takes as many bytes as
/// `varint_size` says.
pub proof fn varint_round_trip(v: u64, rest: Seq<u8>)
    requires
        v < VARINT_END,
    ensures
        parse_varint(varint_bytes(v as nat) + rest) == Some((v, varint_len(v as nat))),
        varint_bytes(v as nat).len() == varint_len(v as nat),
{
    let w = v as nat;
    let b = varint_bytes(w);
    let s = b + rest;
    lemma_varint_len(w);
    crate::be::lemma_pow256_values();
    assert(s.subrange(0, b.len() as int) =~= b);
    if w < 0x40 {
        assert(b.drop_last() =~= Seq::empty());
        assert(be_value(b) == be_value(b.drop_last()) * 256 + b.last() as nat);
    } else if w < 0x4000 {
        let x = w + 0x4000;
        crate::be::be_round_trip(x, 2);
        lemma_first_byte(x, 2);
        assert(0x40 <= s[0] < 0x80);
    } else if w < 0x4000_0000 {
        let x = w + 0x8000_0000;
        crate::be::be_round_trip(x, 4);
        lemma_first_byte(x, 4);
        assert(pow256(3) == 0x100_0000) by {
            reveal_with_fuel(pow256, 4);
        }
        assert(b[0] as nat == x / 0x100_0000);
        assert(0x80 <= x / 0x100_0000 < 0xc0);
    } else {
        let x = w + 0xc000_0000_0000_0000;
        crate::be::be_round_trip(x, 8);
        lemma_first_byte(x, 8);
        assert(pow256(7) == 0x100_0000_0000_0000) by {
            reveal_with_fuel(pow256, 8);
        }
        assert(b[0] as nat == x / 0x100_0000_0000_0000);
        assert(0xc0 <= x / 0x100_0000_0000_0000);
    }
}

// ---- Responses ----
/// How a response is not one.
#[derive(Clone, Copy, PartialEq, Eq, Structural, Debug)]
pub enum Hy2CodecError {
    UnexpectedEof,
    InvalidData,
}

/// The answer of the server to a request.
#[derive(Debug)]
pub struct Hy2TcpResp {
    pub status: u8,
    pub msg: String,
}

#[verifier::ext_equal]
pub struct Hy2RespView {
    pub status: u8,
    pub msg: Seq<char>,
}

impl View for Hy2TcpResp {
    type V = Hy2RespView;

    open spec fn view(&self) -> Hy2RespView {
        Hy2RespView { status: self.status, msg: self.msg@ }
    }
}

pub open spec fn skipped(s: Seq<u8>, n: int) -> Seq<u8> {
    s.subrange(n, s.len() as int)
}

/// What a response says, and the bytes that are left once it has been taken, or as much of it as
/// was in order.
pub open spec fn response_spec(s: Seq<u8>) -> (Result<Hy2RespView, Hy2CodecError>, Seq<u8>) {
    if s.len() == 0 {
        (Err(Hy2CodecError::UnexpectedEof), s)
    } else {
        let s1 = skipped(s, 1);
        match parse_varint(s1) {
            None => (Err(Hy2CodecError::InvalidData), s1),
            Some((msg_len, n)) => {
                let s2 = skipped(s1, n as int);
                if s2.len() < msg_len {
                    (Err(Hy2CodecError::UnexpectedEof), s2)
                } else {
                    let msg = s2.subrange(0, msg_len as int);
                    let s3 = skipped(s2, msg_len as int);
                    if !valid_utf8(msg) {
                        (Err(Hy2CodecError::InvalidData), s3)
                    } else {
                        match parse_varint(s3) {
                            None => (Err(Hy2CodecError::UnexpectedEof), s3),
                            Some((padding_len, m)) => {
                                let s4 = skipped(s3, m as int);
                                if s4.len() < padding_len {
                                    (Err(Hy2CodecError::UnexpectedEof), s4)
                                } else {
                                    (
                                        Ok(Hy2RespView { status: s[0], msg: decode_utf8(msg) }),
                                        skipped(s4, padding_len as int),
                                    )
                                }
                            },
                        }
                    }
                }
            },
        }
    }
}

/// The bytes of a response.
pub open spec fn response_bytes(r: Hy2RespView, padding: Seq<u8>) -> Seq<u8> {
    let msg = encode_utf8(r.msg);
    seq![r.status] + varint_bytes(msg.len()) + msg + varint_bytes(padding.len()) + padding
}

pub open spec fn resp_view(r: Result<Option<Hy2TcpResp>, Hy2CodecError>) -> Result<
    Hy2RespView,
    Hy2CodecError,
> {
    match r {
        Ok(Some(m)) => Ok(m@),
        Ok(None) => Err(Hy2CodecError::UnexpectedEof),
        Err(e) => Err(e),
    }
}

/// Reads responses and writes requests.
pub struct Hy2TcpCodec;

impl Hy2TcpCodec {
    /// Takes a response out of the buffer. It has to be there as a whole.
    pub fn decode(&mut self, src: &mut BytesMut) -> (r: Result<Option<Hy2TcpResp>, Hy2CodecError>)
        ensures
            resp_view(r) == response_spec(buf_bytes(*old(src))).0,
            buf_bytes(*final(src)) == response_spec(buf_bytes(*old(src))).1,
            r matches Ok(m) ==> m is Some,
    {
        let ghost s = buf_bytes(*src);
        if buf_len(src) == 0 {
            return Err(Hy2CodecError::UnexpectedEof);
        }
        let status: u8 = buf_get_u8(src);
        let msg_len: u64 = match decode_varint(src) {
            Some(n) => n,
            None => {
                return Err(Hy2CodecError::InvalidData);
            },
        };
        if (buf_len(src) as u64) < msg_len {
            return Err(Hy2CodecError::UnexpectedEof);
        }
        let msg = buf_split_to(src, msg_len as usize);
        let text = match str_from_utf8(msg.as_slice()) {
            Some(t) => t.to_owned(),
            None => {
                return Err(Hy2CodecError::InvalidData);
            },
        };
        let padding_len: u64 = match decode_varint(src) {
            Some(n) => n,
            None => {
                return Err(Hy2CodecError::UnexpectedEof);
            },
        };
        if (buf_len(src) as u64) < padding_len {
            return Err(Hy2CodecError::UnexpectedEof);
        }
        buf_advance(src, padding_len as usize);
        Ok(Some(Hy2TcpResp { status, msg: text }))
    }

    /// Appends a request for `item`, padded with `padding`.
    pub fn encode_padded(&mut self, item: &DestinationAddr, padding: &[u8], buf: &mut BytesMut)
        requires
            can_be_asked_for(item@),
            padding@.len() < VARINT_END,
        ensures
            buf_bytes(*final(buf)) == buf_bytes(*old(buf)) + request_bytes(
                encode_utf8(dest_text_spec(item@)),
                padding@,
            ),
    {
        let text = dest_text(item);
        let addr = text.as_str().as_bytes();
        encode_varint(REQUEST_ID, buf);
        encode_varint(addr.len() as u64, buf);
        buf_put_slice(buf, addr);
        encode_varint(padding.len() as u64, buf);
        buf_put_slice(buf, padding);
        assert(buf_bytes(*buf) =~= buf_bytes(*old(buf)) + request_bytes(addr@, padding@));
    }

    /// Appends a request for `item`, with the padding that a random number picks. Without a number
    /// nothing is appended, and the result is `false`.
    pub fn encode_with(
        &mut self,
        item: &DestinationAddr,
        random: Option<u32>,
        buf: &mut BytesMut,
    ) -> (r: bool)
        requires
            can_be_asked_for(item@),
        ensures
            r == (random is Some),
            match random {
                Some(n) => buf_bytes(*final(buf)) == buf_bytes(*old(buf)) + request_bytes(
                    encode_utf8(dest_text_spec(item@)),
                    padding_bytes(64, 512, n),
                ),
                None => *final(buf) == *old(buf),
            },
    {
        match padding_with(64, 512, random) {
            Some(p) => {
                self.encode_padded(item, p.as_slice(), buf);
                true
            },
            None => false,
        }
    }

    /// Appends a request for `item` with a padding of random length. Where the system has no random
    /// number, nothing is appended, and the result is `false`.
    pub fn encode(&mut self, item: &DestinationAddr, buf: &mut BytesMut) -> (r: bool)
        requires
            can_be_asked_for(item@),
        ensures
            !r ==> *final(buf) == *old(buf),
            r ==> exists|n: u32|
                buf_bytes(*final(buf)) == buf_bytes(*old(buf)) + request_bytes(
                    encode_utf8(dest_text_spec(item@)),
                    #[trigger] padding_bytes(64, 512, n),
                ),
    {
        self.encode_with(item, random_u32(), buf)
    }

    /// As `encode`, for any destination: `None` where `encode` does not take it.
    pub fn try_encode(&mut self, item: &DestinationAddr, buf: &mut BytesMut) -> (r: Option<bool>)
        ensures
            r is None <==> !can_be_asked_for(item@),
            !(r == Some(true)) ==> *final(buf) == *old(buf),
            r == Some(true) ==> exists|n: u32|
                buf_bytes(*final(buf)) == buf_bytes(*old(buf)) + request_bytes(
                    encode_utf8(dest_text_spec(item@)),
                    #[trigger] padding_bytes(64, 512, n),
                ),
    {
        let text = dest_text(item);
        if text.as_str().as_bytes().len() as u64 >= VARINT_END {
            return None;
        }
        Some(self.encode(item, buf))
    }
}

/// Whether the length of a destination in text can be written in a request.
pub open spec fn can_be_asked_for(dest: DestView) -> bool {
    encode_utf8(dest_text_spec(dest)).len() < VARINT_END
}

// ---- Requests ----
/// What a request begins with.
pub const REQUEST_ID: u64 = 0x401;

/// The bytes of a request.
pub open spec fn request_bytes(addr: Seq<u8>, padding: Seq<u8>) -> Seq<u8> {
    varint_bytes(REQUEST_ID as nat) + varint_bytes(addr.len()) + addr + varint_bytes(padding.len())
        + padding
}

/// The padding that a random number picks: at least `start` and at most `end` bytes.
pub open spec fn padding_bytes(start: u32, end: u32, random: u32) -> Seq<u8> {
    Seq::new((start + random as int % (end - start + 1)) as nat, |i: int| 0x41u8)
}

/// The padding that a random number picks.
pub fn padding_for(start: u32, end: u32, random: u32) -> (p: Vec<u8>)
    requires
        start <= end,
        end - start < u32::MAX,
    ensures
        p@ == padding_bytes(start, end, random),
        start <= p@.len() <= end,
{
    let len: u32 = start + random % (end - start + 1);
    let mut p: Vec<u8> = Vec::new();
    let mut i: u32 = 0;
    while i < len
        invariant
            i <= len,
            p@.len() == i,
            forall|j: int| 0 <= j < i ==> p@[j] == 0x41,
        decreases len - i,
    {
        p.push(0x41);
        i += 1;
    }
    assert(p@ =~= padding_bytes(start, end, random));
    p
}

/// The padding that a random number picks, where there is a number.
pub fn padding_with(start: u32, end: u32, random: Option<u32>) -> (r: Option<Vec<u8>>)
    requires
        start <= end,
        end - start < u32::MAX,
    ensures
        match (random, r) {
            (Some(n), Some(p)) => p@ == padding_bytes(start, end, n) && start <= p@.len() <= end,
            (None, None) => true,
            _ => false,
        },
{
    match random {
        Some(n) => Some(padding_for(start, end, n)),
        None => None,
    }
}

/// A padding of random length. `None` where the system has no random number.
pub fn padding(start: u32, end: u32) -> (r: Option<Vec<u8>>)
    requires
        start <= end,
        end - start < u32::MAX,
    ensures
        r matches Some(p) ==> start <= p@.len() <= end && exists|n: u32|
            p@ == #[trigger] padding_bytes(start, end, n),
{
    padding_with(start, end, random_u32())
}

// ---- Laws ----
/// A response that was written is read back, whatever follows it.
pub proof fn response_round_trip(r: Hy2RespView, padding: Seq<u8>, rest: Seq<u8>)
    requires
        encode_utf8(r.msg).len() < VARINT_END,
        padding.len() < VARINT_END,
    ensures
        response_spec(response_bytes(r, padding) + rest) == (
            Ok::<Hy2RespView, Hy2CodecError>(r),
            rest,
        ),
{
    let msg = encode_utf8(r.msg);
    vstd::utf8::encode_utf8_valid_utf8(r.msg);
    vstd::utf8::encode_utf8_decode_utf8(r.msg);
    let s = response_bytes(r, padding) + rest;
    let s1 = skipped(s, 1);
    let t1 = msg + varint_bytes(padding.len()) + padding + rest;
    assert(s1 =~= varint_bytes(msg.len()) + t1);
    varint_round_trip(msg.len() as u64, t1);
    let s2 = skipped(s1, varint_len(msg.len()) as int);
    assert(s2 =~= t1);
    assert(s2.subrange(0, msg.len() as int) =~= msg);
    let s3 = skipped(s2, msg.len() as int);
    assert(s3 =~= varint_bytes(padding.len()) + (padding + rest));
    varint_round_trip(padding.len() as u64, padding + rest);
    let s4 = skipped(s3, varint_len(padding.len()) as int);
    assert(s4 =~= padding + rest);
    assert(skipped(s4, padding.len() as int) =~= rest);
}

proof fn lemma_counted(body: Seq<u8>, rest: Seq<u8>)
    requires
        body.len() < VARINT_END,
    ensures
        ({
            let s = varint_bytes(body.len()) + body + rest;
            let n = varint_len(body.len()) as int;
            &&& parse_varint(s) == Some((body.len() as u64, n as nat))
            &&& s.subrange(n, n + body.len()) == body
            &&& skipped(s, n + body.len()) == rest
        }),
{
    let s = varint_bytes(body.len()) + body + rest;
    let n = varint_len(body.len()) as int;
    varint_round_trip(body.len() as u64, body + rest);
    assert(s =~= varint_bytes(body.len()) + (body + rest));
    assert(s.subrange(n, n + body.len()) =~= body);
    assert(skipped(s, n + body.len()) =~= rest);
}

/// What a server reads of a request: the identifier, then the destination, then the padding, which
/// ends where the request ends.
pub proof fn request_read_back(addr: Seq<u8>, padding: Seq<u8>, rest: Seq<u8>)
    requires
        addr.len() < VARINT_END,
        padding.len() < VARINT_END,
    ensures
        ({
            let s = request_bytes(addr, padding) + rest;
            let s1 = skipped(s, 2);
            let n = varint_len(addr.len()) as int;
            let s2 = skipped(s1, n + addr.len());
            let m = varint_len(padding.len()) as int;
            &&& parse_varint(s) == Some((REQUEST_ID, 2nat))
            &&& parse_varint(s1) == Some((addr.len() as u64, n as nat))
            &&& s1.subrange(n, n + addr.len()) == addr
            &&& parse_varint(s2) == Some((padding.len() as u64, m as nat))
            &&& s2.subrange(m, m + padding.len()) == padding
            &&& skipped(s2, m + padding.len()) == rest
        }),
{
    let s = request_bytes(addr, padding) + rest;
    let t2 = varint_bytes(padding.len()) + padding + rest;
    let t1 = varint_bytes(addr.len()) + addr + t2;
    assert(s =~= varint_bytes(REQUEST_ID as nat) + t1);
    varint_round_trip(REQUEST_ID, t1);
    assert(skipped(s, 2) =~= t1);
    lemma_counted(addr, t2);
    lemma_counted(padding, rest);
}

/// An integer is written in the fewest bytes of 1, 2, 4 and 8 that hold it, high byte first, with the
/// length in its two highest bits.
pub proof fn varints_on_the_wire(v: u64)
    requires
        v < 0x4000_0000_0000_0000,
    ensures
        ({
            let b = varint_bytes(v as nat);
            &&& v < 0x40 ==> b.len() == 1 && be_value(b) == v
            &&& 0x40 <= v < 0x4000 ==> b.len() == 2 && be_value(b) == v + 0x4000
            &&& 0x4000 <= v < 0x4000_0000 ==> b.len() == 4 && be_value(b) == v + 0x8000_0000
            &&& 0x4000_0000 <= v ==> b.len() == 8 && be_value(b) == v + 0xc000_0000_0000_0000
        }),
{
    let w = v as nat;
    let b = varint_bytes(w);
    crate::be::lemma_pow256_values();
    if w < 0x40 {
        assert(b.drop_last() =~= Seq::<u8>::empty());
        assert(be_value(b) == be_value(b.drop_last()) * 256 + b.last() as nat);
    } else if w < 0x4000 {
        crate::be::be_round_trip(w + 0x4000, 2);
    } else if w < 0x4000_0000 {
        crate::be::be_round_trip(w + 0x8000_0000, 4);
    } else {
        crate::be::be_round_trip(w + 0xc000_0000_0000_0000, 8);
    }
}

/// The two highest bits of an integer tell how long it is, and the others are the integer, also where
/// it is longer than it has to be. One that is not all there is not read.
pub proof fn varints_are_read(s: Seq<u8>)
    requires
        s.len() > 0,
    ensures
        ({
            let n: int = if s[0] / 64 == 0 {
                1
            } else if s[0] / 64 == 1 {
                2
            } else if s[0] / 64 == 2 {
                4
            } else {
                8
            };
            let mark: int = if n == 1 {
                0
            } else if n == 2 {
                0x4000
            } else if n == 4 {
                0x8000_0000
            } else {
                0xc000_0000_0000_0000
            };
            &&& s.len() < n <==> parse_varint(s) is None
            &&& parse_varint(s) matches Some((v, m)) ==> m == n && v + mark == be_value(
                s.subrange(0, n),
            )
        }),
        parse_varint(Seq::empty()) is None,
{
    let n = varint_len_of(s[0]) as int;
    if s.len() >= n {
        let t = s.subrange(0, n);
        lemma_high_byte(t);
        crate::be::lemma_pow256_values();
        assert(pow256(3) == 0x100_0000) by {
            reveal_with_fuel(pow256, 4);
        }
        assert(pow256(7) == 0x100_0000_0000_0000) by {
            reveal_with_fuel(pow256, 8);
        }
        crate::be::lemma_be_value_bound(t);
        assert(t[0] == s[0]);
        let v = be_value(t);
        if n == 1 {
            assert(v / 1 == v);
        } else if n == 2 {
            lemma_low_part(v as int, s[0] as int, 0x100, 0x4000, 1);
        } else if n == 4 {
            lemma_low_part(v as int, s[0] as int, 0x100_0000, 0x4000_0000, 2);
        } else {
            lemma_low_part(v as int, s[0] as int, 0x100_0000_0000_0000, 0x4000_0000_0000_0000, 3);
        }
    }
}

proof fn lemma_low_part(v: int, high: int, unit: int, size: int, mark: int)
    requires
        v >= 0,
        unit > 0,
        size == 64 * unit,
        v / unit == high,
        high / 64 == mark,
    ensures
        v % size == v - mark * size,
{
    let low = v - mark * size;
    assert(64 * mark <= high < 64 * mark + 64);
    vstd::arithmetic::div_mod::lemma_fundamental_div_mod(v, unit);
    vstd::arithmetic::div_mod::lemma_mod_bound(v, unit);
    assert(0 <= low < size) by (nonlinear_arith)
        requires
            low == v - mark * size,
            size == 64 * unit,
            v == unit * high + v % unit,
            0 <= v % unit < unit,
            64 * mark <= high < 64 * mark + 64,
    ;
    vstd::arithmetic::div_mod::lemma_fundamental_div_mod_converse_mod(v, size, mark, low);
}

proof fn lemma_high_byte(s: Seq<u8>)
    requires
        s.len() > 0,
    ensures
        be_value(s) / pow256((s.len() - 1) as nat) == s[0],
    decreases s.len(),
{
    let n = s.len();
    crate::be::lemma_pow256_monotonic(0, (n - 1) as nat);
    if n == 1 {
        assert(s.drop_last() =~= Seq::<u8>::empty());
        assert(be_value(s) == be_value(s.drop_last()) * 256 + s.last() as nat);
        assert(be_value(s) / 1 == be_value(s));
    } else {
        let rest = s.drop_last();
        lemma_high_byte(rest);
        let q = pow256((n - 2) as nat);
        crate::be::lemma_pow256_monotonic(0, (n - 2) as nat);
        assert(pow256((n - 1) as nat) == 256 * q);
        assert(be_value(s) / 256 == be_value(rest));
        vstd::arithmetic::div_mod::lemma_div_denominator(be_value(s) as int, 256, q as int);
        assert(rest[0] == s[0]);
    }
}

/// A request for a destination begins with the identifier 0x401, then has the destination as text, a
/// host, a colon and a port, behind its length, and ends with the padding behind its length.
pub proof fn requests_on_the_wire(
    c: &mut Hy2TcpCodec,
    item: &DestinationAddr,
    padding: &[u8],
    buf: &mut BytesMut,
)
    requires
        can_be_asked_for(item@),
        padding@.len() < VARINT_END,
        call_ensures(Hy2TcpCodec::encode_padded, (c, item, padding, buf), ()),
    ensures
        ({
            let addr = encode_utf8(dest_text_spec(item@));
            &&& buf_bytes(*final(buf)) == buf_bytes(*old(buf)) + seq![0x44u8, 0x01] + varint_bytes(
                addr.len(),
            ) + addr + varint_bytes(padding@.len()) + padding@
        }),
{
    let addr = encode_utf8(dest_text_spec(item@));
    assert(REQUEST_ID + 0x4000 == 0x4401);
    crate::be::lemma_be_bytes_two(0x4401);
    assert(varint_bytes(REQUEST_ID as nat) =~= seq![0x44u8, 0x01]);
    assert(buf_bytes(*final(buf)) =~= buf_bytes(*old(buf)) + seq![0x44u8, 0x01] + varint_bytes(
        addr.len(),
    ) + addr + varint_bytes(padding@.len()) + padding@);
}

/// A response is taken off the buffer with its status and its message, and what is behind it stays; a
/// part of one is an error.
pub proof fn responses_are_taken(
    c: &mut Hy2TcpCodec,
    src: &mut BytesMut,
    r: Result<Option<Hy2TcpResp>, Hy2CodecError>,
    status: u8,
    msg: Seq<char>,
    padding: Seq<u8>,
    rest: Seq<u8>,
)
    requires
        encode_utf8(msg).len() < VARINT_END,
        padding.len() < VARINT_END,
        buf_bytes(*src) == seq![status] + varint_bytes(encode_utf8(msg).len()) + encode_utf8(msg)
            + varint_bytes(padding.len()) + padding + rest,
        call_ensures(Hy2TcpCodec::decode, (c, src), r),
    ensures
        r matches Ok(Some(m)) && m.status == status && m.msg@ == msg,
        buf_bytes(*final(src)) == rest,
{
    let v = Hy2RespView { status, msg };
    response_round_trip(v, padding, rest);
    assert(response_bytes(v, padding) + rest =~= buf_bytes(*old(src)));
}

/// No response is made of a part of one.
pub proof fn parts_are_no_responses(r: Hy2RespView, padding: Seq<u8>, n: int)
    requires
        encode_utf8(r.msg).len() < VARINT_END,
        padding.len() < VARINT_END,
        0 <= n < response_bytes(r, padding).len(),
    ensures
        response_spec(response_bytes(r, padding).take(n)).0 is Err,
{
    let s = response_bytes(r, padding).take(n);
    if response_spec(s).0 is Ok {
        let whole = response_bytes(r, padding);
        let more = whole.skip(n);
        assert(s + more =~= whole);
        response_round_trip(r, padding, Seq::empty());
        assert(whole + Seq::<u8>::empty() =~= whole);
        lemma_response_extends(s, more);
    }
}

proof fn lemma_varint_extends(s: Seq<u8>, more: Seq<u8>)
    requires
        parse_varint(s) is Some,
    ensures
        parse_varint(s + more) == parse_varint(s),
{
    let n = varint_len_of(s[0]) as int;
    assert((s + more).subrange(0, n) =~= s.subrange(0, n));
}

proof fn lemma_response_extends(s: Seq<u8>, more: Seq<u8>)
    requires
        response_spec(s).0 is Ok,
    ensures
        response_spec(s + more) == (response_spec(s).0, response_spec(s).1 + more),
{
    let all = s + more;
    let (s1, a1) = (skipped(s, 1), skipped(all, 1));
    assert(a1 =~= s1 + more);
    lemma_varint_extends(s1, more);
    let (msg_len, n) = parse_varint(s1)->0;
    let (s2, a2) = (skipped(s1, n as int), skipped(a1, n as int));
    assert(a2 =~= s2 + more);
    assert(a2.subrange(0, msg_len as int) =~= s2.subrange(0, msg_len as int));
    let (s3, a3) = (skipped(s2, msg_len as int), skipped(a2, msg_len as int));
    assert(a3 =~= s3 + more);
    lemma_varint_extends(s3, more);
    let (padding_len, m) = parse_varint(s3)->0;
    let (s4, a4) = (skipped(s3, m as int), skipped(a3, m as int));
    assert(a4 =~= s4 + more);
    assert(skipped(a4, padding_len as int) =~= skipped(s4, padding_len as int) + more);
}

/// A padding has as many bytes as were asked for, wherever the random number falls: each length from
/// the first to the last is picked by some number, and no other.
pub proof fn paddings_have_every_length(
    start: u32,
    end: u32,
    random: u32,
    p: Vec<u8>,
    len: u32,
    q: Vec<u8>,
)
    requires
        start <= end,
        end - start < u32::MAX,
        start <= len <= end,
        call_ensures(padding_for, (start, end, random), p),
        call_ensures(padding_for, (start, end, (len - start) as u32), q),
    ensures
        start <= p@.len() <= end,
        forall|i: int| 0 <= i < p@.len() ==> p@[i] == 0x41,
        q@.len() == len,
{
    vstd::arithmetic::div_mod::lemma_small_mod((len - start) as nat, (end - start + 1) as nat);
}

} // verus!
