//! Little-endian integer encoding, stated over base-256 digits.

use vstd::prelude::*;

verus! {

/// 256 raised to the power `n`.
pub open spec fn radix(n: nat) -> nat
    decreases n,
{
    if n == 0 {
        1
    } else {
        256 * radix((n - 1) as nat)
    }
}

/// The `width` low-order base-256 digits of `value`, least significant first.
pub open spec fn le_bytes(value: nat, width: nat) -> Seq<u8>
    decreases width,
{
    if width == 0 {
        Seq::empty()
    } else {
        seq![(value % 256) as u8] + le_bytes(value / 256, (width - 1) as nat)
    }
}

/// The number whose base-256 digits, least significant first, are `bytes`.
pub open spec fn le_value(bytes: Seq<u8>) -> nat
    decreases bytes.len(),
{
    if bytes.len() == 0 {
        0
    } else {
        bytes[0] as nat + 256 * le_value(bytes.skip(1))
    }
}

/// The unsigned 64-bit pattern of a signed integer in two's complement.
pub open spec fn twos_complement(value: i64) -> nat {
    if value >= 0 {
        value as nat
    } else {
        (value + 0x1_0000_0000_0000_0000) as nat
    }
}

/// The signed integer that a 64-bit two's-complement pattern stands for.
pub open spec fn from_twos_complement(pattern: u64) -> i64 {
    if pattern < 0x8000_0000_0000_0000 {
        pattern as i64
    } else {
        (pattern - 0x1_0000_0000_0000_0000) as i64
    }
}

/// The powers of 256 that the widths in use come to.
pub proof fn lemma_radix_values()
    ensures
        radix(0) == 1,
        radix(1) == 0x100,
        radix(2) == 0x1_0000,
        radix(3) == 0x100_0000,
        radix(4) == 0x1_0000_0000,
        radix(5) == 0x100_0000_0000,
        radix(6) == 0x1_0000_0000_0000,
        radix(7) == 0x100_0000_0000_0000,
        radix(8) == 0x1_0000_0000_0000_0000,
{
    reveal_with_fuel(radix, 9);
}

/// A number written in `width` bytes takes `width` bytes.
pub proof fn lemma_le_bytes_len(value: nat, width: nat)
    ensures
        le_bytes(value, width).len() == width,
    decreases width,
{
    if width > 0 {
        lemma_le_bytes_len(value / 256, (width - 1) as nat);
    }
}

/// The number in some bytes is below the power of 256 of their count.
pub proof fn lemma_le_value_bound(bytes: Seq<u8>)
    ensures
        le_value(bytes) < radix(bytes.len()),
    decreases bytes.len(),
{
    if bytes.len() > 0 {
        lemma_le_value_bound(bytes.skip(1));
    }
}

/// Decoding what was encoded gives the value back, as long as it fits the width.
pub proof fn lemma_le_value_of_bytes(value: nat, width: nat)
    requires
        value < radix(width),
    ensures
        le_value(le_bytes(value, width)) == value,
    decreases width,
{
    if width > 0 {
        let rest = le_bytes(value / 256, (width - 1) as nat);
        let all = le_bytes(value, width);
        assert(all.skip(1) =~= rest);
        lemma_le_value_of_bytes(value / 256, (width - 1) as nat);
    }
}

/// Encoding what was decoded gives the digits back.
pub proof fn lemma_le_bytes_of_value(bytes: Seq<u8>)
    ensures
        le_bytes(le_value(bytes), bytes.len()) == bytes,
    decreases bytes.len(),
{
    if bytes.len() > 0 {
        let rest = bytes.skip(1);
        lemma_le_bytes_of_value(rest);
        let v = le_value(bytes);
        assert(v % 256 == bytes[0] as nat);
        assert(v / 256 == le_value(rest));
        assert(le_bytes(v, bytes.len()) =~= bytes);
    }
}

/// Two's complement is undone by its inverse.
pub proof fn lemma_twos_complement_inverse(value: i64)
    ensures
        twos_complement(value) < radix(8),
        from_twos_complement(twos_complement(value) as u64) == value,
{
    lemma_radix_values();
}

/// Appends the `width` low-order bytes of `value` to `buffer`, least significant first.
pub fn push_le(buffer: &mut Vec<u8>, value: u64, width: usize)
    requires
        width <= 8,
    ensures
        final(buffer)@ == old(buffer)@ + le_bytes(value as nat, width as nat),
{
    let mut rest: u64 = value;
    let mut done: usize = 0;
    while done < width
        invariant
            done <= width,
            buffer@ + le_bytes(rest as nat, (width - done) as nat) == old(buffer)@ + le_bytes(
                value as nat,
                width as nat,
            ),
        decreases width - done,
    {
        let ghost before = buffer@;
        buffer.push((rest % 256) as u8);
        proof {
            let tail = le_bytes((rest / 256) as nat, (width - done - 1) as nat);
            assert(le_bytes(rest as nat, (width - done) as nat) =~= seq![(rest % 256) as u8]
                + tail);
            assert(buffer@ + tail =~= before + le_bytes(rest as nat, (width - done) as nat));
        }
        rest = rest / 256;
        done = done + 1;
    }
    assert(le_bytes(rest as nat, 0) =~= Seq::<u8>::empty());
    assert(buffer@ + Seq::<u8>::empty() =~= buffer@);
}

/// Reads the number held in the `width` bytes of `bytes` that start at `at`.
pub fn read_le(bytes: &[u8], at: usize, width: usize) -> (value: u64)
    requires
        width <= 8,
        at + width <= bytes@.len(),
    ensures
        value as nat == le_value(bytes@.subrange(at as int, at + width)),
{
    let total: usize = bytes.len();
    let mut value: u64 = 0;
    let mut left: usize = width;
    proof {
        assert(bytes@.subrange(at + width, at + width) =~= Seq::<u8>::empty());
        lemma_radix_values();
    }
    while left > 0
        invariant
            left <= width <= 8,
            at + width <= total,
            total == bytes@.len(),
            value as nat == le_value(bytes@.subrange(at + left, at + width)),
        decreases left,
    {
        left = left - 1;
        let digit: u8 = bytes[at + left];
        proof {
            let high = bytes@.subrange(at + left + 1, at + width);
            let whole = bytes@.subrange(at + left, at + width);
            assert(whole.skip(1) =~= high);
            assert(whole[0] == digit);
            lemma_le_value_bound(high);
            lemma_radix_monotonic(high.len(), 7);
            lemma_radix_values();
        }
        value = value * 256 + digit as u64;
    }
    value
}

/// The powers of 256 grow with their exponent.
pub proof fn lemma_radix_monotonic(small: nat, large: nat)
    requires
        small <= large,
    ensures
        radix(small) <= radix(large),
    decreases large,
{
    if small < large {
        lemma_radix_monotonic(small, (large - 1) as nat);
    }
}

/// The two's-complement pattern of `value`.
pub fn to_twos_complement(value: i64) -> (pattern: u64)
    ensures
        pattern as nat == twos_complement(value),
{
    if value >= 0 {
        value as u64
    } else {
        u64::MAX - ((-(value + 1)) as u64)
    }
}

/// The signed integer behind a two's-complement pattern.
pub fn of_twos_complement(pattern: u64) -> (value: i64)
    ensures
        value == from_twos_complement(pattern),
{
    if pattern < 0x8000_0000_0000_0000 {
        pattern as i64
    } else {
        -((u64::MAX - pattern) as i64) - 1
    }
}

} // verus!
