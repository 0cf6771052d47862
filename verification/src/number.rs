//! Whole numbers as the host's numbers: the bit pattern of a double-precision float that
//! holds an integer exactly.

use vstd::prelude::*;

verus! {

/// 2 raised to the power `n`.
pub open spec fn pow2(n: nat) -> nat
    decreases n,
{
    if n == 0 {
        1
    } else {
        2 * pow2((n - 1) as nat)
    }
}

/// The position of the highest bit that is set in `n`, for `n` above zero.
pub open spec fn top_bit(n: nat) -> nat
    decreases n,
{
    if n <= 1 {
        0
    } else {
        1 + top_bit(n / 2)
    }
}

/// The double-precision bit pattern of the whole number `n`, which is exact below 2^53:
/// no sign, the exponent of the highest bit with its bias of 1023, and the bits below the
/// highest one at the top of the 52-bit fraction.
pub open spec fn double_bits(n: nat) -> nat {
    if n == 0 {
        0
    } else {
        let e = top_bit(n);
        ((1023 + e) * pow2(52) + (n - pow2(e)) * pow2((52 - e) as nat)) as nat
    }
}

/// The sign bit of a double.
pub open spec fn sign_bit() -> nat {
    0x8000_0000_0000_0000
}

/// The double-precision bit pattern of the integer `n`.
pub open spec fn double_bits_signed(n: int) -> nat {
    if n < 0 {
        sign_bit() + double_bits((-n) as nat)
    } else {
        double_bits(n as nat)
    }
}

/// The power of a sum is the product of the powers.
pub proof fn lemma_pow2_adds(a: nat, b: nat)
    ensures
        pow2(a + b) == pow2(a) * pow2(b),
    decreases a,
{
    if a > 0 {
        lemma_pow2_adds((a - 1) as nat, b);
        assert(pow2(a + b) == 2 * pow2((a - 1 + b) as nat));
        assert(2 * (pow2((a - 1) as nat) * pow2(b)) == (2 * pow2((a - 1) as nat)) * pow2(b))
            by (nonlinear_arith);
    } else {
        assert(pow2(a) * pow2(b) == pow2(b)) by (nonlinear_arith)
            requires
                pow2(a) == 1,
        ;
    }
}

/// The powers of two that the layout of a double is made of.
pub proof fn lemma_pow2_values()
    ensures
        pow2(0) == 1,
        pow2(32) == 0x1_0000_0000,
        pow2(52) == 0x10_0000_0000_0000,
        pow2(53) == 0x20_0000_0000_0000,
{
    reveal_with_fuel(pow2, 17);
    assert(pow2(16) == 0x1_0000);
    lemma_pow2_adds(16, 16);
    lemma_pow2_adds(16, 4);
    assert(pow2(4) == 16);
    assert(pow2(20) == 0x10_0000);
    lemma_pow2_adds(32, 20);
    lemma_pow2_adds(52, 1);
}

/// The highest bit of `n` is at `e` when `n` lies between 2^e and 2^(e+1).
pub proof fn lemma_top_bit(n: nat, e: nat)
    requires
        pow2(e) <= n < 2 * pow2(e),
    ensures
        top_bit(n) == e,
    decreases e,
{
    if e > 0 {
        lemma_top_bit(n / 2, (e - 1) as nat);
    }
}

/// The whole numbers below this limit, 2^53, are doubles each: none is rounded.
pub const EXACT_LIMIT: u64 = 0x20_0000_0000_0000;

/// The bit pattern of the whole number `n` as a double, for `n` below 2^53; `None` for a
/// number from there on, where doubles round.
pub fn number_from_u64(n: u64) -> (bits: Option<u64>)
    ensures
        bits == if n < EXACT_LIMIT {
            Some(double_bits(n as nat) as u64)
        } else {
            None
        },
        n < EXACT_LIMIT ==> double_bits(n as nat) < sign_bit(),
{
    if n >= EXACT_LIMIT {
        return None;
    }
    if n == 0 {
        return Some(0);
    }
    let mut e: u64 = 0;
    let mut high: u64 = 1;
    proof {
        lemma_pow2_values();
    }
    while high * 2 <= n
        invariant
            high == pow2(e as nat),
            0 < high <= n < EXACT_LIMIT,
            e <= 52,
            pow2(53) == 0x20_0000_0000_0000,
        decreases n - high,
    {
        proof {
            lemma_pow2_adds(e as nat, 1);
            assert(pow2(1) == 2) by {
                reveal_with_fuel(pow2, 2);
            }
            if e >= 52 {
                lemma_pow2_adds(52, 1);
            }
        }
        high = high * 2;
        e = e + 1;
    }
    proof {
        lemma_top_bit(n as nat, e as nat);
    }
    let mut scale: u64 = 1;
    let mut k: u64 = 0;
    while k < 52 - e
        invariant
            e <= 52,
            k <= 52 - e,
            scale == pow2(k as nat),
            0 < scale <= pow2(52),
            pow2(52) == 0x10_0000_0000_0000,
        decreases 52 - e - k,
    {
        proof {
            lemma_pow2_monotonic((k + 1) as nat, 52);
        }
        scale = scale * 2;
        k = k + 1;
    }
    proof {
        lemma_pow2_adds(e as nat, (52 - e) as nat);
        assert((n - high) * scale < high * scale) by (nonlinear_arith)
            requires
                n - high < high,
                scale > 0,
        ;
        assert((1023 + e) * 0x10_0000_0000_0000 <= 1075 * 0x10_0000_0000_0000)
            by (nonlinear_arith)
            requires
                e <= 52,
        ;
    }
    Some((1023 + e) * 0x10_0000_0000_0000 + (n - high) * scale)
}

/// The bit pattern of the whole number `n` as a double.
pub fn number_from_u32(n: u32) -> (bits: u64)
    ensures
        bits == double_bits(n as nat),
{
    match number_from_u64(n as u64) {
        Some(bits) => bits,
        None => unreached(),
    }
}

/// The bit pattern of the integer `n` as a double, for `n` between -2^53 and 2^53; `None`
/// for a number from there on, where doubles round.
pub fn number_from_i64(n: i64) -> (bits: Option<u64>)
    ensures
        bits == if -EXACT_LIMIT < n < EXACT_LIMIT {
            Some(double_bits_signed(n as int) as u64)
        } else {
            None
        },
        -EXACT_LIMIT < n < EXACT_LIMIT ==> double_bits_signed(n as int) <= u64::MAX,
{
    if n >= 0 {
        number_from_u64(n as u64)
    } else if n <= -0x20_0000_0000_0000 {
        None
    } else {
        match number_from_u64((-n) as u64) {
            Some(bits) => Some(0x8000_0000_0000_0000 + bits),
            None => None,
        }
    }
}

/// The powers of two grow with their exponent, and none is zero.
pub proof fn lemma_pow2_monotonic(small: nat, large: nat)
    requires
        small <= large,
    ensures
        pow2(small) <= pow2(large),
        pow2(small) > 0,
    decreases large,
{
    if small < large {
        lemma_pow2_monotonic(small, (large - 1) as nat);
    } else if small > 0 {
        lemma_pow2_monotonic((small - 1) as nat, (small - 1) as nat);
    }
}

/// The bit pattern of the integer `n` as a double.
pub fn number_from_i32(n: i32) -> (bits: u64)
    ensures
        bits == double_bits_signed(n as int),
{
    match number_from_i64(n as i64) {
        Some(bits) => bits,
        None => unreached(),
    }
}

} // verus!
