//! Reading IEEE-754 single-precision bit patterns without floating point.
//!
//! Wire formats carry many fields as 32-bit floats. The crate never computes with
//! floats: a field is taken as its bit pattern and turned into a fixed-point
//! number of thousandths, rounded toward zero and saturated to the `i32` range.

use vstd::prelude::*;
use vstd::arithmetic::power2::{
    lemma2_to64, lemma_pow2_adds, lemma_pow2_pos, lemma_pow2_strictly_increases,
    lemma_pow2_unfold, pow2,
};
use vstd::arithmetic::div_mod::{lemma_div_multiples_vanish, lemma_div_multiples_vanish_quotient};
use vstd::bits::lemma_u64_shr_is_div;
use crate::math::clamp_i32;

verus! {

/// Bit pattern of `1.0`.
pub const F32_ONE: u32 = 0x3F80_0000;

/// Bit pattern of `1000.0`.
pub const F32_THOUSAND: u32 = 0x447A_0000;

/// Bit pattern of positive infinity; larger magnitudes are NaN.
pub const F32_INFINITY: u32 = 0x7F80_0000;

/// The sign bit is set.
pub open spec fn f32_is_negative(bits: u32) -> bool {
    bits >= 0x8000_0000
}

/// The pattern without its sign bit. Among non-NaN patterns a larger magnitude
/// field means a larger absolute value.
pub open spec fn f32_magnitude(bits: u32) -> int {
    bits as int % 0x8000_0000
}

pub open spec fn f32_is_nan(bits: u32) -> bool {
    f32_magnitude(bits) > 0x7F80_0000
}

/// Zero, subnormal or normal: neither infinite nor NaN.
pub open spec fn f32_is_finite(bits: u32) -> bool {
    f32_magnitude(bits) < 0x7F80_0000
}

/// The biased exponent field, `0..=255`.
pub open spec fn f32_exponent(bits: u32) -> int {
    f32_magnitude(bits) / 0x80_0000
}

/// The 23-bit fraction field.
pub open spec fn f32_fraction(bits: u32) -> int {
    f32_magnitude(bits) % 0x80_0000
}

/// The integer `m` for which the absolute value is `m * 2^(f32_scale - 150)`.
pub open spec fn f32_significand(bits: u32) -> int {
    if f32_exponent(bits) == 0 {
        f32_fraction(bits)
    } else {
        f32_fraction(bits) + 0x80_0000
    }
}

/// The exponent that goes with `f32_significand`: subnormals share the scale of the
/// smallest normal numbers.
pub open spec fn f32_scale(bits: u32) -> int {
    if f32_exponent(bits) == 0 {
        1
    } else {
        f32_exponent(bits)
    }
}

/// The absolute value times 2^150, which is a whole number for every pattern.
/// Infinity and NaN count as the (huge) values their fields would give as
/// normal numbers.
pub open spec fn f32_abs_scaled(bits: u32) -> int {
    f32_significand(bits) * pow2(f32_scale(bits) as nat)
}

/// The absolute value in thousandths, rounded down.
pub open spec fn f32_magnitude_milli(bits: u32) -> int {
    f32_abs_scaled(bits) * 1000 / (pow2(150) as int)
}

/// The thousandths of the absolute value by the scale: a pattern of scale 150
/// or more holds a whole number, which is taken times 1000; any other
/// significand is taken times 1000 and then halved `150 - scale` times.
pub proof fn lemma_magnitude_milli(bits: u32)
    ensures
        f32_magnitude_milli(bits) == if f32_scale(bits) >= 150 {
            f32_significand(bits) * 1000 * pow2((f32_scale(bits) - 150) as nat)
        } else {
            f32_significand(bits) * 1000 / (pow2((150 - f32_scale(bits)) as nat) as int)
        },
{
    let sig = f32_significand(bits);
    let s = f32_scale(bits);
    let whole = pow2(150) as int;
    lemma_pow2_pos(150);
    if s >= 150 {
        let up = pow2((s - 150) as nat) as int;
        lemma_pow2_adds((s - 150) as nat, 150);
        assert(sig * (up * whole) * 1000 == whole * (sig * 1000 * up)) by (nonlinear_arith);
        lemma_div_multiples_vanish(sig * 1000 * up, whole);
    } else {
        let low = pow2(s as nat) as int;
        let down = pow2((150 - s) as nat) as int;
        lemma_pow2_pos(s as nat);
        lemma_pow2_pos((150 - s) as nat);
        lemma_pow2_adds(s as nat, (150 - s) as nat);
        assert(sig * low * 1000 == low * (sig * 1000)) by (nonlinear_arith);
        lemma_div_multiples_vanish_quotient(low, sig * 1000, down);
    }
}

/// The value in thousandths, rounded toward zero; NaN counts as zero.
pub open spec fn f32_milli(bits: u32) -> int {
    if f32_is_nan(bits) {
        0
    } else if f32_is_negative(bits) {
        -f32_magnitude_milli(bits)
    } else {
        f32_magnitude_milli(bits)
    }
}

/// The value in thousandths as the crate holds it: rounded toward zero and
/// saturated to the range of `i32`.
pub open spec fn f32_to_milli(bits: u32) -> i32 {
    clamp_i32(f32_milli(bits))
}

/// The value is a number in `[0, 1]`; negative zero counts as zero.
pub open spec fn f32_in_unit_interval(bits: u32) -> bool {
    &&& f32_abs_scaled(bits) <= pow2(150)
    &&& !f32_is_negative(bits) || f32_abs_scaled(bits) == 0
}

/// The value is finite and its absolute value is at most 1000.
pub open spec fn f32_within_thousand(bits: u32) -> bool {
    f32_abs_scaled(bits) <= 1000 * pow2(150)
}

/// The value is finite and not below zero; negative zero counts as zero.
pub open spec fn f32_is_finite_non_negative(bits: u32) -> bool {
    f32_is_finite(bits) && (!f32_is_negative(bits) || f32_abs_scaled(bits) == 0)
}

/// Of two patterns the one with the greater magnitude field has the greater
/// absolute value.
pub proof fn lemma_abs_scaled_grows(a: u32, b: u32)
    requires
        f32_magnitude(a) < f32_magnitude(b),
    ensures
        f32_abs_scaled(a) < f32_abs_scaled(b),
{
    let ea = f32_exponent(a);
    let eb = f32_exponent(b);
    let sa = f32_significand(a);
    let sb = f32_significand(b);
    let pa = pow2(f32_scale(a) as nat) as int;
    let pb = pow2(f32_scale(b) as nat) as int;
    lemma_pow2_pos(f32_scale(a) as nat);
    lemma_pow2_pos(f32_scale(b) as nat);
    if ea == eb {
        assert(sa * pa < sb * pb) by (nonlinear_arith)
            requires
                0 <= sa < sb,
                pa == pb,
                pa > 0,
        ;
    } else {
        assert(ea < eb);
        // The scale of `a` with one more doubling does not pass the scale of `b`,
        // and for a subnormal `a` its own scale does not.
        let doubled = pow2((f32_scale(a) + 1) as nat) as int;
        lemma_pow2_unfold((f32_scale(a) + 1) as nat);
        if f32_scale(a) + 1 < f32_scale(b) {
            lemma_pow2_strictly_increases((f32_scale(a) + 1) as nat, f32_scale(b) as nat);
        }
        if ea == 0 {
            if f32_scale(a) < f32_scale(b) {
                lemma_pow2_strictly_increases(f32_scale(a) as nat, f32_scale(b) as nat);
            }
            assert(sa * pa < sb * pb) by (nonlinear_arith)
                requires
                    0 <= sa < 0x80_0000,
                    0x80_0000 <= sb,
                    0 < pa <= pb,
            ;
        } else {
            assert(sa * pa < sb * pb) by (nonlinear_arith)
                requires
                    0 <= sa < 0x100_0000,
                    0x80_0000 <= sb,
                    pa > 0,
                    2 * pa <= pb,
            ;
        }
    }
}

/// The order of absolute values is the order of magnitude fields.
pub proof fn lemma_abs_scaled_order(a: u32, b: u32)
    ensures
        f32_magnitude(a) <= f32_magnitude(b) <==> f32_abs_scaled(a) <= f32_abs_scaled(b),
        f32_magnitude(a) == f32_magnitude(b) <==> f32_abs_scaled(a) == f32_abs_scaled(b),
{
    if f32_magnitude(a) < f32_magnitude(b) {
        lemma_abs_scaled_grows(a, b);
    } else if f32_magnitude(b) < f32_magnitude(a) {
        lemma_abs_scaled_grows(b, a);
    }
}

/// The absolute values of the patterns of 0, 1 and 1000.
pub proof fn lemma_abs_scaled_marks()
    ensures
        f32_abs_scaled(0) == 0,
        f32_abs_scaled(F32_ONE) == pow2(150),
        f32_abs_scaled(F32_THOUSAND) == 1000 * pow2(150),
{
    lemma2_to64();
    lemma_pow2_adds(23, 127);
    lemma_pow2_adds(14, 136);
    assert(f32_significand(F32_ONE) == 0x80_0000 && f32_scale(F32_ONE) == 127);
    assert(f32_significand(F32_THOUSAND) == 0xFA_0000 && f32_scale(F32_THOUSAND) == 136);
    assert(f32_significand(0) == 0);
    let p = pow2(136) as int;
    assert(0xFA_0000 * p == 1000 * (0x4000 * p)) by (nonlinear_arith);
    assert(f32_abs_scaled(0) == 0) by (nonlinear_arith)
        requires
            f32_abs_scaled(0) == 0 * pow2(f32_scale(0) as nat),
    ;
}

/// Decides `f32_in_unit_interval`.
pub fn in_unit_interval(bits: u32) -> (r: bool)
    ensures
        r == f32_in_unit_interval(bits),
{
    proof {
        lemma_abs_scaled_marks();
        lemma_abs_scaled_order(bits, F32_ONE);
        lemma_abs_scaled_order(bits, 0);
    }
    let mag: u32 = bits % 0x8000_0000;
    mag == 0 || (bits < 0x8000_0000 && mag <= F32_ONE)
}

/// Decides `f32_within_thousand`.
pub fn within_thousand(bits: u32) -> (r: bool)
    ensures
        r == f32_within_thousand(bits),
{
    proof {
        lemma_abs_scaled_marks();
        lemma_abs_scaled_order(bits, F32_THOUSAND);
    }
    bits % 0x8000_0000 <= F32_THOUSAND
}

/// Decides `f32_is_finite_non_negative`.
pub fn is_finite_non_negative(bits: u32) -> (r: bool)
    ensures
        r == f32_is_finite_non_negative(bits),
{
    proof {
        lemma_abs_scaled_marks();
        lemma_abs_scaled_order(bits, 0);
    }
    let mag: u32 = bits % 0x8000_0000;
    mag == 0 || (bits < 0x8000_0000 && mag < F32_INFINITY)
}

/// Converts a bit pattern to thousandths: rounded toward zero, saturated to the
/// range of `i32`, zero for NaN.
pub fn milli_from_f32_bits(bits: u32) -> (r: i32)
    ensures
        r == f32_to_milli(bits),
{
    proof {
        lemma_magnitude_milli(bits);
    }
    let mag: u32 = bits % 0x8000_0000;
    if mag > F32_INFINITY {
        return 0;
    }
    let negative: bool = bits >= 0x8000_0000;
    let exponent: u32 = mag / 0x80_0000;
    let fraction: u32 = mag % 0x80_0000;
    // The magnitude in thousandths, capped at 2^31.
    let mut capped: u64 = 0x8000_0000;
    if exponent >= 150 {
        proof {
            let p = pow2((exponent - 150) as nat) as int;
            let m = f32_significand(bits) * 1000;
            lemma_pow2_pos((exponent - 150) as nat);
            assert(m * p >= m) by (nonlinear_arith)
                requires
                    m >= 0,
                    p >= 1,
            ;
        }
    } else {
        let sig: u64 = if exponent == 0 {
            fraction as u64
        } else {
            fraction as u64 + 0x80_0000
        };
        let shift: u64 = if exponent == 0 {
            149
        } else {
            150 - exponent as u64
        };
        let scaled: u64 = sig * 1000;
        let mut q: u64 = 0;
        if shift < 34 {
            q = scaled >> shift;
            proof {
                lemma_u64_shr_is_div(scaled, shift);
            }
        } else {
            proof {
                let p = pow2(shift as nat) as int;
                lemma2_to64();
                lemma_pow2_adds(32, 2);
                if shift > 34 {
                    lemma_pow2_strictly_increases(34, shift as nat);
                }
                assert(scaled as int / p == 0) by (nonlinear_arith)
                    requires
                        0 <= scaled < p,
                ;
            }
        }
        assert(q as int == f32_magnitude_milli(bits));
        if q < 0x8000_0000 {
            capped = q;
        }
    }
    if negative {
        if capped >= 0x8000_0000 {
            i32::MIN
        } else {
            -(capped as i32)
        }
    } else {
        if capped >= 0x7FFF_FFFF {
            i32::MAX
        } else {
            capped as i32
        }
    }
}

} // verus!
