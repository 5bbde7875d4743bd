//! Big-endian integers in byte sequences.
use vstd::prelude::*;

verus! {

/// `256` to the power `n`: how many values `n` bytes can hold.
pub open spec fn pow256(n: nat) -> nat
    decreases n,
{
    if n == 0 {
        1
    } else {
        256 * pow256((n - 1) as nat)
    }
}

/// The number that the bytes spell, most significant byte first.
pub open spec fn be_value(s: Seq<u8>) -> nat
    decreases s.len(),
{
    if s.len() == 0 {
        0
    } else {
        be_value(s.drop_last()) * 256 + s.last() as nat
    }
}

/// The `n` low bytes of `v`, most significant byte first.
pub open spec fn be_bytes(v: nat, n: nat) -> Seq<u8>
    decreases n,
{
    if n == 0 {
        Seq::empty()
    } else {
        be_bytes(v / 256, (n - 1) as nat).push((v % 256) as u8)
    }
}

/// The number that the bytes spell, least significant byte first.
pub open spec fn le_value(s: Seq<u8>) -> nat
    decreases s.len(),
{
    if s.len() == 0 {
        0
    } else {
        s[0] as nat + 256 * le_value(s.drop_first())
    }
}

pub proof fn lemma_le_value_push(s: Seq<u8>, b: u8)
    ensures
        le_value(s.push(b)) == le_value(s) + b * pow256(s.len()),
    decreases s.len(),
{
    reveal_with_fuel(le_value, 2);
    if s.len() == 0 {
        assert(s.push(b).drop_first() =~= Seq::empty());
        assert(b * pow256(0) == b) by (nonlinear_arith)
            requires
                pow256(0) == 1,
        ;
    } else {
        assert(s.push(b).drop_first() =~= s.drop_first().push(b));
        lemma_le_value_push(s.drop_first(), b);
        let p = pow256((s.len() - 1) as nat);
        assert(256 * (le_value(s.drop_first()) + b * p) == 256 * le_value(s.drop_first()) + b * (256
            * p)) by (nonlinear_arith);
    }
}

pub proof fn lemma_le_value_bound(s: Seq<u8>)
    ensures
        le_value(s) < pow256(s.len()),
    decreases s.len(),
{
    if s.len() > 0 {
        lemma_le_value_bound(s.drop_first());
    }
}

pub proof fn lemma_be_bytes_len(v: nat, n: nat)
    ensures
        be_bytes(v, n).len() == n,
    decreases n,
{
    if n > 0 {
        lemma_be_bytes_len(v / 256, (n - 1) as nat);
    }
}

pub proof fn lemma_be_value_bound(s: Seq<u8>)
    ensures
        be_value(s) < pow256(s.len()),
    decreases s.len(),
{
    if s.len() > 0 {
        lemma_be_value_bound(s.drop_last());
    }
}

/// Writing a number that fits and reading it back gives the number.
pub proof fn be_round_trip(v: nat, n: nat)
    requires
        v < pow256(n),
    ensures
        be_bytes(v, n).len() == n,
        be_value(be_bytes(v, n)) == v,
    decreases n,
{
    lemma_be_bytes_len(v, n);
    if n > 0 {
        be_round_trip(v / 256, (n - 1) as nat);
        assert(be_bytes(v, n).drop_last() =~= be_bytes(v / 256, (n - 1) as nat));
    }
}

/// Reading bytes and writing the number back gives the bytes.
pub proof fn be_round_trip_bytes(s: Seq<u8>)
    ensures
        be_bytes(be_value(s), s.len()) == s,
    decreases s.len(),
{
    if s.len() > 0 {
        be_round_trip_bytes(s.drop_last());
        assert(be_value(s) / 256 == be_value(s.drop_last()));
        assert(be_value(s) % 256 == s.last());
        assert(s.drop_last().push(s.last()) =~= s);
    } else {
        assert(s =~= Seq::empty());
    }
}

pub proof fn lemma_pow256_values()
    ensures
        pow256(0) == 1,
        pow256(1) == 0x100,
        pow256(2) == 0x1_0000,
        pow256(4) == 0x1_0000_0000,
        pow256(8) == 0x1_0000_0000_0000_0000,
        pow256(16) == 0x1_0000_0000_0000_0000_0000_0000_0000_0000,
{
    reveal_with_fuel(pow256, 17);
}

pub proof fn lemma_pow256_monotonic(a: nat, b: nat)
    requires
        a <= b,
    ensures
        pow256(a) <= pow256(b),
    decreases b,
{
    if a < b {
        lemma_pow256_monotonic(a, (b - 1) as nat);
        assert(pow256(b) == 256 * pow256((b - 1) as nat));
    }
}

pub proof fn lemma_be_value_two(s: Seq<u8>)
    requires
        s.len() == 2,
    ensures
        be_value(s) == s[0] * 256 + s[1],
{
    reveal_with_fuel(be_value, 3);
    assert(s.drop_last().drop_last().len() == 0);
}

pub proof fn lemma_be_bytes_two(v: nat)
    ensures
        be_bytes(v, 2) == seq![((v / 256) % 256) as u8, (v % 256) as u8],
{
    reveal_with_fuel(be_bytes, 3);
    assert(be_bytes(v, 2) =~= seq![((v / 256) % 256) as u8, (v % 256) as u8]);
}

/// Appends the `n` low bytes of `v`.
pub fn push_be(out: &mut Vec<u8>, v: u128, n: usize)
    ensures
        final(out)@ == old(out)@ + be_bytes(v as nat, n as nat),
    decreases n,
{
    if n > 0 {
        push_be(out, v / 256, n - 1);
        let low: u8 = (v % 256) as u8;
        out.push(low);
        assert(out@ =~= old(out)@ + be_bytes(v as nat, n as nat));
    } else {
        assert(out@ =~= old(out)@ + be_bytes(v as nat, 0));
    }
}

/// Reads `n` bytes of `buf` from `at` on.
pub fn read_be(buf: &[u8], at: usize, n: usize) -> (v: u128)
    requires
        at + n <= buf@.len(),
        n <= 16,
    ensures
        v == be_value(buf@.subrange(at as int, at + n)),
        v < pow256(n as nat),
    decreases n,
{
    proof {
        lemma_be_value_bound(buf@.subrange(at as int, at + n));
        lemma_pow256_monotonic(n as nat, 16);
        lemma_pow256_values();
    }
    if n == 0 {
        0
    } else {
        let high: u128 = read_be(buf, at, n - 1);
        assert(buf@.subrange(at as int, at + n).drop_last() =~= buf@.subrange(at as int, at + n - 1));
        let len: usize = buf.len();
        assert(at + n <= len);
        high * 256 + buf[at + (n - 1)] as u128
    }
}

/// Reads the two bytes of `buf` at `at`.
pub fn read_be16(buf: &[u8], at: usize) -> (v: u16)
    requires
        at + 2 <= buf@.len(),
    ensures
        v == buf@[at as int] * 256 + buf@[at + 1],
        v == be_value(buf@.subrange(at as int, at + 2)),
{
    proof {
        lemma_be_value_two(buf@.subrange(at as int, at + 2));
    }
    let len: usize = buf.len();
    assert(at + 2 <= len);
    buf[at] as u16 * 256 + buf[at + 1] as u16
}

// ---- Laws ----
/// The byte that counts least is the first of a little-endian number and the last of a big-endian one.
pub proof fn lowest_byte_first_or_last(b: u8, rest: Seq<u8>)
    ensures
        le_value(seq![b] + rest) == b + 256 * le_value(rest),
        be_value(rest + seq![b]) == b + 256 * be_value(rest),
        be_value(Seq::empty()) == 0,
        le_value(Seq::empty()) == 0,
{
    let s = seq![b] + rest;
    let t = rest + seq![b];
    assert(t.drop_last() =~= rest);
    assert(t.last() == b);
    assert(s.drop_first() =~= rest);
    assert(s[0] == b);
}

} // verus!
