//! The Internet checksum: sixteen-bit words added in one's complement.
use vstd::prelude::*;

verus! {

/// The sum of the sixteen-bit words of `b`. A last byte without a partner counts as the high half
/// of a word.
pub open spec fn word_sum(b: Seq<u8>) -> nat
    decreases b.len(),
{
    if b.len() == 0 {
        0
    } else if b.len() == 1 {
        b[0] as nat * 256
    } else {
        b[0] as nat * 256 + b[1] as nat + word_sum(b.subrange(2, b.len() as int))
    }
}

/// A sum with its carries added back in until it fits in sixteen bits.
pub open spec fn fold(s: nat) -> nat
    decreases s,
{
    if s <= 0xffff {
        s
    } else {
        fold((s % 0x1_0000 + s / 0x1_0000) as nat)
    }
}

/// The checksum of `b`: the complement of the folded sum.
pub open spec fn internet_checksum(b: Seq<u8>) -> u16 {
    (0xffff - fold(word_sum(b))) as u16
}

/// The bytes that go into the checksum of a UDP segment in front of it: the addresses, the
/// protocol and the length.
pub open spec fn pseudo_header(src: Seq<u8>, dst: Seq<u8>, len: nat) -> Seq<u8> {
    src + dst + seq![0u8, 17, (len / 256) as u8, (len % 256) as u8]
}

/// The checksum of a UDP segment whose checksum field is zero. All ones stand for zero.
pub open spec fn udp_checksum(src: Seq<u8>, dst: Seq<u8>, segment: Seq<u8>) -> u16 {
    let c = (0xffff - fold(
        word_sum(pseudo_header(src, dst, segment.len())) + word_sum(segment),
    )) as u16;
    if c == 0 {
        0xffff
    } else {
        c
    }
}

pub proof fn lemma_fold(s: nat)
    ensures
        fold(s) <= 0xffff,
        fold(s) % 65535 == s % 65535,
        s > 0 ==> fold(s) > 0,
    decreases s,
{
    if s > 0xffff {
        let t = (s % 0x1_0000 + s / 0x1_0000) as nat;
        lemma_fold(t);
        assert(s == 65535 * (s / 0x1_0000) + t);
        assert(s % 65535 == t % 65535) by (nonlinear_arith)
            requires
                s == 65535 * (s / 0x1_0000) + t,
        ;
    }
}

pub proof fn lemma_word_sum_concat(a: Seq<u8>, b: Seq<u8>)
    requires
        a.len() % 2 == 0,
    ensures
        word_sum(a + b) == word_sum(a) + word_sum(b),
    decreases a.len(),
{
    if a.len() == 0 {
        assert(a + b =~= b);
    } else {
        let rest = a.subrange(2, a.len() as int);
        lemma_word_sum_concat(rest, b);
        assert((a + b).subrange(2, (a + b).len() as int) =~= rest + b);
    }
}

pub proof fn lemma_word_sum_one(v: u16)
    ensures
        word_sum(crate::be::be_bytes(v as nat, 2)) == v,
{
    crate::be::lemma_be_bytes_two(v as nat);
    reveal_with_fuel(word_sum, 2);
}

/// The bytes with a checksum written in the word between `front` and `back`.
pub open spec fn with_checksum(front: Seq<u8>, c: u16, back: Seq<u8>) -> Seq<u8> {
    front + crate::be::be_bytes(c as nat, 2) + back
}

/// A header that carries its checksum adds up to all ones, which is how a receiver tests it.
pub proof fn checksum_verifies(front: Seq<u8>, back: Seq<u8>)
    requires
        front.len() % 2 == 0,
        word_sum(front) + word_sum(back) > 0,
    ensures
        fold(
            word_sum(
                with_checksum(front, internet_checksum(with_checksum(front, 0, back)), back),
            ),
        ) == 0xffff,
{
    let zero = with_checksum(front, 0, back);
    let s = word_sum(front) + word_sum(back);
    let c = internet_checksum(zero);
    crate::be::lemma_be_bytes_len(0, 2);
    crate::be::lemma_be_bytes_len(c as nat, 2);
    lemma_word_sum_concat(front, crate::be::be_bytes(0, 2));
    lemma_word_sum_concat(front + crate::be::be_bytes(0, 2), back);
    lemma_word_sum_concat(front, crate::be::be_bytes(c as nat, 2));
    lemma_word_sum_concat(front + crate::be::be_bytes(c as nat, 2), back);
    lemma_word_sum_one(0);
    lemma_word_sum_one(c);
    assert(word_sum(zero) == s);
    lemma_fold(s);
    let t = s + c as nat;
    assert(word_sum(with_checksum(front, c, back)) == t);
    lemma_fold(t);
    let f = fold(s);
    assert(t == s + 0xffff - f);
    assert(t % 65535 == 0) by (nonlinear_arith)
        requires
            t == s + 65535 - f,
            f % 65535 == s % 65535,
            f <= 65535,
    ;
    let g = fold(t);
    assert(g == 65535) by (nonlinear_arith)
        requires
            0 < g <= 65535,
            g % 65535 == 0,
    ;
}

/// Computes the checksum of `b`.
pub fn checksum_of(b: &[u8]) -> (c: u16)
    requires
        b@.len() <= 0x1_0000,
    ensures
        c == internet_checksum(b@),
{
    let mut sum: u32 = 0;
    let mut i: usize = 0;
    assert(b@.subrange(0, b@.len() as int) =~= b@);
    while i < b.len()
        invariant
            i <= b@.len() <= 0x1_0000,
            i % 2 == 0 || i == b@.len(),
            sum <= 0x1_0000 * i,
            sum + word_sum(b@.subrange(i as int, b@.len() as int)) == word_sum(b@),
        decreases b@.len() - i,
    {
        let ghost rest = b@.subrange(i as int, b@.len() as int);
        if b.len() - i == 1 {
            sum = sum + b[i] as u32 * 256;
            i = i + 1;
            assert(b@.subrange(i as int, b@.len() as int) =~= Seq::empty());
        } else {
            assert(rest.subrange(2, rest.len() as int) =~= b@.subrange(i + 2, b@.len() as int));
            sum = sum + b[i] as u32 * 256 + b[i + 1] as u32;
            i = i + 2;
        }
    }
    while sum > 0xffff
        invariant
            fold(sum as nat) == fold(word_sum(b@)),
        decreases sum,
    {
        sum = sum % 0x1_0000 + sum / 0x1_0000;
    }
    (0xffff - sum) as u16
}

// ---- Laws ----
/// The words of a sum have their high byte first, and a last byte alone is a high byte.
pub proof fn words_have_their_high_byte_first(a: u8, b: u8, rest: Seq<u8>)
    ensures
        word_sum(seq![a, b] + rest) == a * 256 + b + word_sum(rest),
        word_sum(seq![a]) == a * 256,
        word_sum(Seq::empty()) == 0,
{
    reveal_with_fuel(word_sum, 2);
    let s = seq![a, b] + rest;
    assert(s.subrange(2, s.len() as int) =~= rest);
}

/// A sum that fits stays; any other keeps its remainder by 65535.
pub proof fn sums_are_folded(s: nat)
    ensures
        s <= 0xffff ==> fold(s) == s,
        fold(s) <= 0xffff,
        fold(s) % 65535 == s % 65535,
        s > 0 ==> fold(s) > 0,
{
    lemma_fold(s);
}

} // verus!
