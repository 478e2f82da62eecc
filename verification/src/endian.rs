//! Fixed-width byte encodings of unsigned integers.
//!
//! The container stores its integers as little-endian base-256 digit strings;
//! the nonce counter is stored big-endian. Both are modelled here over `nat`
//! and `Seq<u8>`, together with the executable readers and writers for the
//! 64-bit width that the container uses.

use vstd::prelude::*;

verus! {

/// 256 to the power `n`: the number of values that `n` bytes can tell apart.
pub open spec fn radix_pow(n: nat) -> nat
    decreases n,
{
    if n == 0 {
        1
    } else {
        256 * radix_pow((n - 1) as nat)
    }
}

/// The `n` low-order base-256 digits of `x`, least significant digit first.
pub open spec fn le_bytes(x: nat, n: nat) -> Seq<u8>
    decreases n,
{
    if n == 0 {
        Seq::empty()
    } else {
        seq![(x % 256) as u8] + le_bytes(x / 256, (n - 1) as nat)
    }
}

/// The number that a little-endian digit string denotes.
pub open spec fn le_value(s: Seq<u8>) -> nat
    decreases s.len(),
{
    if s.len() == 0 {
        0
    } else {
        s[0] as nat + 256 * le_value(s.skip(1))
    }
}

/// The `n` low-order base-256 digits of `x`, most significant digit first.
pub open spec fn be_bytes(x: nat, n: nat) -> Seq<u8> {
    le_bytes(x, n).reverse()
}

/// `radix_pow` never decreases.
pub proof fn lemma_radix_pow_monotonic(a: nat, b: nat)
    requires
        a <= b,
    ensures
        0 < radix_pow(a) <= radix_pow(b),
    decreases b,
{
    if b == 0 {
    } else if a == b {
        lemma_radix_pow_monotonic((a - 1) as nat, (b - 1) as nat);
    } else {
        lemma_radix_pow_monotonic(a, (b - 1) as nat);
    }
}

/// Eight bytes hold exactly the values of a `u64`, four those of a `u32`.
pub proof fn lemma_radix_pow_widths()
    ensures
        radix_pow(4) == 0x1_0000_0000,
        radix_pow(8) == 0x1_0000_0000_0000_0000,
{
    reveal_with_fuel(radix_pow, 9);
}

/// An encoding has as many digits as were asked for.
pub proof fn lemma_le_bytes_len(x: nat, n: nat)
    ensures
        le_bytes(x, n).len() == n,
    decreases n,
{
    if n > 0 {
        lemma_le_bytes_len(x / 256, (n - 1) as nat);
    }
}

/// A digit string of length `n` denotes a number below `256^n`.
pub proof fn lemma_le_value_bound(s: Seq<u8>)
    ensures
        le_value(s) < radix_pow(s.len()),
    decreases s.len(),
{
    if s.len() > 0 {
        lemma_le_value_bound(s.skip(1));
    }
}

/// Decoding undoes encoding for every number that fits the width.
pub proof fn lemma_le_value_of_le_bytes(x: nat, n: nat)
    requires
        x < radix_pow(n),
    ensures
        le_value(le_bytes(x, n)) == x,
    decreases n,
{
    if n > 0 {
        let rest = le_bytes(x / 256, (n - 1) as nat);
        lemma_le_value_of_le_bytes(x / 256, (n - 1) as nat);
        assert(le_bytes(x, n).skip(1) =~= rest);
    }
}

/// Encoding undoes decoding: a digit string is the encoding of its value.
pub proof fn lemma_le_bytes_of_le_value(s: Seq<u8>)
    ensures
        le_bytes(le_value(s), s.len()) == s,
    decreases s.len(),
{
    if s.len() > 0 {
        lemma_le_bytes_of_le_value(s.skip(1));
    }
}

/// Appends the eight little-endian bytes of `value` to `out`.
pub fn push_u64_le(out: &mut Vec<u8>, value: u64)
    ensures
        final(out)@ == old(out)@ + le_bytes(value as nat, 8),
{
    let ghost start = out@;
    let mut rest: u64 = value;
    let mut i: usize = 0;
    while i < 8
        invariant
            i <= 8,
            out@.len() == start.len() + i,
            out@.subrange(0, start.len() as int) == start,
            out@.subrange(start.len() as int, out@.len() as int) + le_bytes(
                rest as nat,
                (8 - i) as nat,
            ) == le_bytes(value as nat, 8),
        decreases 8 - i,
    {
        let ghost before = out@;
        let digit: u8 = (rest % 256) as u8;
        out.push(digit);
        rest = rest / 256;
        i = i + 1;
        assert(out@.subrange(start.len() as int, out@.len() as int) == before.subrange(
            start.len() as int,
            before.len() as int,
        ).push(digit));
    }
    assert(out@ == start + out@.subrange(start.len() as int, out@.len() as int));
}

/// Reads the little-endian number stored in the `width` bytes
/// `bytes[at .. at + width]`.
pub fn read_uint_le(bytes: &[u8], at: usize, width: usize) -> (value: u64)
    requires
        width <= 8,
        at + width <= bytes@.len(),
    ensures
        value as nat == le_value(bytes@.subrange(at as int, at + width)),
{
    let total: usize = bytes.len();
    let mut acc: u64 = 0;
    let mut i: usize = width;
    while i > 0
        invariant
            i <= width <= 8,
            at + width <= bytes@.len() == total,
            acc as nat == le_value(bytes@.subrange(at + i, at + width)),
        decreases i,
    {
        let ghost upper = bytes@.subrange(at + i, at + width);
        i = i - 1;
        let digit: u8 = bytes[at + i];
        proof {
            let window = bytes@.subrange(at + i, at + width);
            assert(window.skip(1) =~= upper);
            lemma_le_value_bound(upper);
            lemma_radix_pow_monotonic(upper.len() + 1, 8);
            lemma_radix_pow_widths();
        }
        acc = acc * 256 + digit as u64;
    }
    acc
}

/// Reads the little-endian `u64` stored in `bytes[at .. at + 8]`.
pub fn read_u64_le(bytes: &[u8], at: usize) -> (value: u64)
    requires
        at + 8 <= bytes@.len(),
    ensures
        value as nat == le_value(bytes@.subrange(at as int, at + 8)),
{
    read_uint_le(bytes, at, 8)
}

/// The eight big-endian bytes of `value`.
pub fn u64_be_bytes(value: u64) -> (out: [u8; 8])
    ensures
        out@ == be_bytes(value as nat, 8),
{
    let ghost digits = le_bytes(value as nat, 8);
    let mut out: [u8; 8] = [0u8; 8];
    let mut rest: u64 = value;
    let mut i: usize = 0;
    proof {
        lemma_le_bytes_len(value as nat, 8);
    }
    while i < 8
        invariant
            i <= 8,
            digits == le_bytes(value as nat, 8),
            digits.len() == 8,
            digits.subrange(i as int, 8) == le_bytes(rest as nat, (8 - i) as nat),
            forall|j: int| 0 <= j < i ==> out@[7 - j] == digits[j],
        decreases 8 - i,
    {
        let digit: u8 = (rest % 256) as u8;
        proof {
            let tail = digits.subrange(i as int, 8);
            assert(tail[0] == digit);
            assert(tail.skip(1) =~= le_bytes(rest as nat / 256, (8 - i - 1) as nat));
        }
        out[7 - i] = digit;
        rest = rest / 256;
        i = i + 1;
    }
    out
}

} // verus!
