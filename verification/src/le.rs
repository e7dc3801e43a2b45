//! Little-endian encoding of unsigned integers as byte sequences.

use vstd::prelude::*;

verus! {

/// 256 raised to the power `n`: one more than the largest value `n` bytes hold.
pub open spec fn byte_base(n: nat) -> nat
    decreases n,
{
    if n == 0 {
        1
    } else {
        256 * byte_base((n - 1) as nat)
    }
}

/// The `n` least significant bytes of `v`, least significant byte first.
pub open spec fn le_bytes(v: nat, n: nat) -> Seq<u8>
    decreases n,
{
    if n == 0 {
        Seq::empty()
    } else {
        seq![(v % 256) as u8] + le_bytes(v / 256, (n - 1) as nat)
    }
}

/// The number that `bytes` denote when read least significant byte first.
pub open spec fn le_value(bytes: Seq<u8>) -> nat
    decreases bytes.len(),
{
    if bytes.len() == 0 {
        0
    } else {
        bytes[0] as nat + 256 * le_value(bytes.drop_first())
    }
}

/// The powers of 256 that the fixed-width integers use.
pub proof fn lemma_byte_base_values()
    ensures
        byte_base(0) == 1,
        byte_base(1) == 0x100,
        byte_base(2) == 0x1_0000,
        byte_base(3) == 0x100_0000,
        byte_base(4) == 0x1_0000_0000,
        byte_base(5) == 0x100_0000_0000,
        byte_base(6) == 0x1_0000_0000_0000,
        byte_base(7) == 0x100_0000_0000_0000,
        byte_base(8) == 0x1_0000_0000_0000_0000,
{
    reveal_with_fuel(byte_base, 9);
}

/// Encoding into `n` bytes yields exactly `n` bytes.
pub proof fn lemma_le_bytes_len(v: nat, n: nat)
    ensures
        le_bytes(v, n).len() == n,
    decreases n,
{
    if n > 0 {
        lemma_le_bytes_len(v / 256, (n - 1) as nat);
    }
}

/// The value of `bytes` fits in `bytes.len()` bytes.
pub proof fn lemma_le_value_bound(bytes: Seq<u8>)
    ensures
        le_value(bytes) < byte_base(bytes.len()),
    decreases bytes.len(),
{
    if bytes.len() > 0 {
        lemma_le_value_bound(bytes.drop_first());
    }
}

/// Decoding the encoding of a value that fits gives the value back.
pub proof fn lemma_le_value_of_le_bytes(v: nat, n: nat)
    requires
        v < byte_base(n),
    ensures
        le_value(le_bytes(v, n)) == v,
    decreases n,
{
    if n > 0 {
        let rest = le_bytes(v / 256, (n - 1) as nat);
        assert(le_bytes(v, n).drop_first() =~= rest);
        vstd::arithmetic::div_mod::lemma_fundamental_div_mod(v as int, 256);
        lemma_le_value_of_le_bytes(v / 256, (n - 1) as nat);
    }
}

/// Encoding the value of `bytes` into as many bytes gives `bytes` back.
pub proof fn lemma_le_bytes_of_le_value(bytes: Seq<u8>)
    ensures
        le_bytes(le_value(bytes), bytes.len()) == bytes,
    decreases bytes.len(),
{
    if bytes.len() > 0 {
        let rest = bytes.drop_first();
        lemma_le_bytes_of_le_value(rest);
        let v = le_value(bytes);
        vstd::arithmetic::div_mod::lemma_fundamental_div_mod_converse(
            v as int,
            256,
            le_value(rest) as int,
            bytes[0] as int,
        );
        assert(le_bytes(v, bytes.len()) =~= seq![bytes[0]] + rest);
        assert(seq![bytes[0]] + rest =~= bytes);
    }
}

/// Byte `i` of the encoding of `v` is digit `i` of `v` in base 256.
pub proof fn law_le_bytes_index(v: nat, n: nat, i: nat)
    requires
        i < n,
    ensures
        le_bytes(v, n)[i as int] == ((v / byte_base(i)) % 256) as u8,
    decreases i,
{
    lemma_le_bytes_len(v / 256, (n - 1) as nat);
    if i > 0 {
        law_le_bytes_index(v / 256, (n - 1) as nat, (i - 1) as nat);
        lemma_byte_base_positive((i - 1) as nat);
        vstd::arithmetic::div_mod::lemma_div_denominator(v as int, 256, byte_base((i - 1) as nat) as int);
        let rest = le_bytes(v / 256, (n - 1) as nat);
        assert(le_bytes(v, n) == seq![(v % 256) as u8] + rest);
        assert(le_bytes(v, n)[i as int] == rest[i - 1]);
        assert(byte_base(i) == 256 * byte_base((i - 1) as nat));
        assert((v / 256) / byte_base((i - 1) as nat) == v / byte_base(i));
    } else {
        assert(byte_base(0) == 1);
        assert(v / 1 == v);
    }
}

/// Every width holds at least one value.
pub proof fn lemma_byte_base_positive(n: nat)
    ensures
        byte_base(n) > 0,
    decreases n,
{
    if n > 0 {
        lemma_byte_base_positive((n - 1) as nat);
    }
}

/// Larger widths hold at least as many values.
pub proof fn lemma_byte_base_monotone(a: nat, b: nat)
    requires
        a <= b,
    ensures
        byte_base(a) <= byte_base(b),
    decreases b,
{
    if a < b {
        lemma_byte_base_monotone(a, (b - 1) as nat);
    }
}

/// Appends the `n` least significant bytes of `v` to `out`, least significant first.
pub fn push_le(out: &mut Vec<u8>, v: u64, n: usize)
    ensures
        final(out)@ == old(out)@ + le_bytes(v as nat, n as nat),
{
    let mut rest: u64 = v;
    let mut i: usize = 0;
    while i < n
        invariant
            i <= n,
            out@ + le_bytes(rest as nat, (n - i) as nat) == old(out)@ + le_bytes(v as nat, n as nat),
        decreases n - i,
    {
        let ghost before = out@;
        let ghost k = (n - i) as nat;
        out.push((rest % 256) as u8);
        assert(before + le_bytes(rest as nat, k) =~= out@ + le_bytes(
            (rest / 256) as nat,
            (k - 1) as nat,
        ));
        rest = rest / 256;
        i = i + 1;
    }
    assert(out@ + le_bytes(rest as nat, 0) =~= out@);
}

/// Reads the `n` bytes of `bytes` that start at `start` as a little-endian number.
pub fn le_value_at(bytes: &[u8], start: usize, n: usize) -> (r: u64)
    requires
        start + n <= bytes@.len(),
        n <= 8,
    ensures
        r as nat == le_value(bytes@.subrange(start as int, start + n)),
{
    proof {
        lemma_byte_base_values();
    }
    let len = bytes.len();
    let mut acc: u64 = 0;
    let mut i: usize = n;
    assert(bytes@.subrange(start + n, start + n) =~= Seq::<u8>::empty());
    while i > 0
        invariant
            i <= n <= 8,
            len == bytes@.len(),
            start + n <= len,
            acc as nat == le_value(bytes@.subrange(start + i, start + n)),
            acc < byte_base((n - i) as nat),
            byte_base(7) == 0x100_0000_0000_0000,
        decreases i,
    {
        proof {
            lemma_byte_base_monotone((n - i) as nat, 7);
        }
        i = i - 1;
        let b = bytes[start + i];
        let ghost tail = bytes@.subrange(start + i + 1, start + n);
        let ghost whole = bytes@.subrange(start + i, start + n);
        assert(whole.drop_first() =~= tail);
        acc = acc * 256 + b as u64;
    }
    acc
}

} // verus!
