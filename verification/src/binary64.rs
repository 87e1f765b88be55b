//! IEEE 754 binary64 values as bit patterns.
//!
//! A pattern is a sign bit, eleven bits of biased exponent and 52 bits of
//! fraction. Apart from the NaNs, the patterns are ordered as their values
//! are by the sign and the remaining 63 bits read as an integer.

use vstd::prelude::*;
use vstd::arithmetic::div_mod::{
    lemma_div_by_multiple, lemma_div_is_ordered, lemma_div_pos_is_pos, lemma_multiply_divide_lt,
};
use vstd::arithmetic::power2::{
    lemma2_to64, lemma2_to64_rest, lemma_pow2_adds, lemma_pow2_pos, lemma_pow2_strictly_increases,
    lemma_pow2_unfold, pow2,
};

verus! {

/// The pattern of -0.0: the sign bit alone.
pub const SIGN_BIT: u64 = 0x8000_0000_0000_0000;

/// The pattern of positive infinity: every magnitude above it is a NaN.
pub const INFINITY: u64 = 0x7FF0_0000_0000_0000;

/// Two to the power 52: one unit of the biased exponent.
pub const FRACTION_SPAN: u64 = 0x0010_0000_0000_0000;

/// The pattern without its sign bit.
pub open spec fn magnitude(bits: u64) -> int {
    (bits % SIGN_BIT) as int
}

/// Whether the sign bit is set.
pub open spec fn is_negative(bits: u64) -> bool {
    bits >= SIGN_BIT
}

/// Whether the pattern is a NaN.
pub open spec fn is_nan(bits: u64) -> bool {
    magnitude(bits) > INFINITY
}

/// An integer that orders the patterns that are no NaN as their values are
/// ordered. Both zeros have key 0.
pub open spec fn order_key(bits: u64) -> int {
    if is_negative(bits) {
        -magnitude(bits)
    } else {
        magnitude(bits)
    }
}

/// The value of `a` is greater than that of `b`. False where either is a NaN.
pub open spec fn greater(a: u64, b: u64) -> bool {
    !is_nan(a) && !is_nan(b) && order_key(a) > order_key(b)
}

/// The biased exponent.
pub open spec fn biased_exponent(bits: u64) -> int {
    magnitude(bits) / (FRACTION_SPAN as int)
}

/// The significand of a normal value, with its leading bit: the value's
/// magnitude is the significand times two to the power `biased_exponent - 1075`.
pub open spec fn significand(bits: u64) -> int {
    FRACTION_SPAN + magnitude(bits) % (FRACTION_SPAN as int)
}

/// The magnitude of the value rounded to the nearest integer, halves going
/// up. Below one half (biased exponent under 1022) it is 0; from there on it
/// is the integer part of the magnitude plus one half.
pub open spec fn rounded_magnitude(bits: u64) -> int
    recommends
        !is_nan(bits),
        biased_exponent(bits) < 1075,
{
    let e = biased_exponent(bits);
    if e < 1022 {
        0
    } else {
        let shift = (1075 - e) as nat;
        (significand(bits) + pow2((shift - 1) as nat)) / (pow2(shift) as int)
    }
}

/// The value rounded to the nearest integer, halves going away from zero. A
/// NaN gives 0.
pub open spec fn rounded(bits: u64) -> int
    recommends
        is_nan(bits) || biased_exponent(bits) < 1075,
{
    if is_nan(bits) {
        0
    } else if is_negative(bits) {
        -rounded_magnitude(bits)
    } else {
        rounded_magnitude(bits)
    }
}

/// Tells whether the value of `a` is greater than that of `b`.
pub fn is_greater(a: u64, b: u64) -> (r: bool)
    ensures
        r == greater(a, b),
{
    let ma: u64 = a % SIGN_BIT;
    let mb: u64 = b % SIGN_BIT;
    if ma > INFINITY || mb > INFINITY {
        false
    } else if a >= SIGN_BIT {
        b >= SIGN_BIT && ma < mb
    } else if b >= SIGN_BIT {
        ma > 0 || mb > 0
    } else {
        ma > mb
    }
}

/// Computes two to the power `n`.
pub fn power_of_two(n: u32) -> (p: u64)
    requires
        n < 64,
    ensures
        p == pow2(n as nat),
{
    let mut p: u64 = 1;
    let mut i: u32 = 0;
    proof {
        lemma2_to64();
    }
    while i < n
        invariant
            i <= n < 64,
            p == pow2(i as nat),
        decreases n - i,
    {
        proof {
            lemma_pow2_unfold((i + 1) as nat);
            lemma2_to64_rest();
            if i + 1 < 63 {
                lemma_pow2_strictly_increases((i + 1) as nat, 63);
            }
        }
        p = p * 2;
        i = i + 1;
    }
    p
}

/// Rounds the value to the nearest integer, halves going away from zero.
pub fn round_to_i32(bits: u64) -> (r: i32)
    requires
        is_nan(bits) || biased_exponent(bits) < 1053,
    ensures
        r == rounded(bits),
        -0x8000_0000 < r < 0x8000_0000,
{
    let mag: u64 = bits % SIGN_BIT;
    if mag > INFINITY {
        return 0;
    }
    let e: u64 = mag / FRACTION_SPAN;
    if e < 1022 {
        return 0;
    }
    let sig: u64 = FRACTION_SPAN + mag % FRACTION_SPAN;
    let shift: u32 = (1075 - e) as u32;
    let half: u64 = power_of_two(shift - 1);
    let whole: u64 = power_of_two(shift);
    proof {
        lemma2_to64();
        lemma2_to64_rest();
        lemma_pow2_unfold(shift as nat);
        if shift > 23 {
            lemma_pow2_strictly_increases(23, shift as nat);
        }
        if shift < 53 {
            lemma_pow2_strictly_increases(shift as nat, 53);
        }
        lemma_pow2_pos(shift as nat);
    }
    let sum: u64 = sig + half;
    let q: u64 = sum / whole;
    proof {
        assert(q < 0x8000_0000) by (nonlinear_arith)
            requires
                q == sum / whole,
                whole >= 0x80_0000,
                sum < 0x40_0000_0000_0000,
        ;
    }
    let m: i32 = q as i32;
    if bits >= SIGN_BIT {
        -m
    } else {
        m
    }
}

/// From one half on, the rounded magnitude of a value lies between the
/// powers of two that enclose the value.
pub proof fn lemma_rounded_magnitude_bounds(bits: u64)
    requires
        1022 <= biased_exponent(bits) < 1075,
    ensures
        rounded_magnitude(bits) <= pow2((biased_exponent(bits) - 1022) as nat),
        biased_exponent(bits) >= 1023 ==> rounded_magnitude(bits) >= pow2(
            (biased_exponent(bits) - 1023) as nat,
        ),
{
    let e = biased_exponent(bits);
    let shift = (1075 - e) as nat;
    let whole = pow2(shift) as int;
    let half = pow2((shift - 1) as nat) as int;
    let sig = significand(bits);
    let sum = sig + half;
    lemma2_to64_rest();
    lemma_pow2_unfold(shift);
    lemma_pow2_pos(shift);
    lemma_pow2_pos((shift - 1) as nat);
    let high = pow2((53 - shift) as nat) as int;
    lemma_pow2_adds(shift, (53 - shift) as nat);
    assert(whole * high == 0x20_0000_0000_0000);
    assert(sum < whole * (high + 1)) by (nonlinear_arith)
        requires
            sum < whole * high + whole,
    ;
    lemma_multiply_divide_lt(sum, whole, high + 1);
    if e >= 1023 {
        let low = pow2((52 - shift) as nat) as int;
        lemma_pow2_adds(shift, (52 - shift) as nat);
        assert(whole * low == 0x10_0000_0000_0000);
        assert(low * whole == whole * low) by (nonlinear_arith);
        lemma_div_is_ordered(low * whole, sum, whole);
        lemma_div_by_multiple(low, whole);
    }
}

/// Rounding keeps the order of magnitudes.
pub proof fn lemma_rounded_magnitude_monotonic(a: u64, b: u64)
    requires
        magnitude(a) <= magnitude(b),
        biased_exponent(b) < 1075,
    ensures
        0 <= rounded_magnitude(a) <= rounded_magnitude(b),
{
    let ea = biased_exponent(a);
    let eb = biased_exponent(b);
    assert(ea <= eb);
    if eb >= 1022 {
        let shift_b = (1075 - eb) as nat;
        lemma_pow2_pos(shift_b);
        lemma_div_pos_is_pos(
            significand(b) + pow2((shift_b - 1) as nat),
            pow2(shift_b) as int,
        );
        if ea == eb {
            lemma_div_is_ordered(
                significand(a) + pow2((shift_b - 1) as nat),
                significand(b) + pow2((shift_b - 1) as nat),
                pow2(shift_b) as int,
            );
        } else if ea >= 1022 {
            let shift_a = (1075 - ea) as nat;
            lemma_pow2_pos(shift_a);
            lemma_div_pos_is_pos(
                significand(a) + pow2((shift_a - 1) as nat),
                pow2(shift_a) as int,
            );
            lemma_rounded_magnitude_bounds(a);
            lemma_rounded_magnitude_bounds(b);
            if ea - 1022 < eb - 1023 {
                lemma_pow2_strictly_increases((ea - 1022) as nat, (eb - 1023) as nat);
            }
        }
    }
}

/// Rounding keeps the order of values: where `a` is at most `b`, `a` rounded
/// is at most `b` rounded.
pub proof fn lemma_rounded_monotonic(a: u64, b: u64)
    requires
        !is_nan(a),
        !is_nan(b),
        biased_exponent(a) < 1075,
        biased_exponent(b) < 1075,
        order_key(a) <= order_key(b),
    ensures
        rounded(a) <= rounded(b),
{
    if is_negative(a) && is_negative(b) {
        lemma_rounded_magnitude_monotonic(b, a);
    } else if is_negative(a) {
        lemma_rounded_magnitude_monotonic(a, a);
        lemma_rounded_magnitude_monotonic(b, b);
    } else if is_negative(b) {
        lemma_rounded_magnitude_monotonic(a, a);
        lemma_rounded_magnitude_monotonic(b, b);
    } else {
        lemma_rounded_magnitude_monotonic(a, b);
    }
}

} // verus!
