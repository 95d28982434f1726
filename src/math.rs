//! Allocation-free approximations of square root and four-quadrant
//! arctangent for single-precision floats, worked on their IEEE-754 bit
//! patterns.
//!
//! The functions here take and return the bit pattern of an `f32` (as
//! `f32::to_bits` gives it and `f32::from_bits` reads it back): one sign bit,
//! eight exponent bits biased by 127, and twenty-three mantissa bits.

use vstd::prelude::*;

verus! {

/// The exponent bias (127) of a single-precision float, in place in the
/// exponent field.
pub const EXPONENT_ONE: u32 = 0x3F80_0000;

/// The sign bit of a single-precision float.
pub const SIGN_MASK: u32 = 0x8000_0000;

/// Whether the sign bit of a float's bit pattern is set.
pub open spec fn sign_bit(bits: u32) -> bool {
    bits >= 0x8000_0000
}

/// The (biased) exponent field of a float's bit pattern.
pub open spec fn exponent_field(bits: u32) -> int {
    ((bits / 0x80_0000) % 0x100) as int
}

/// The mantissa field of a float's bit pattern.
pub open spec fn mantissa_field(bits: u32) -> int {
    (bits % 0x80_0000) as int
}

/// Square root approximation of a non-negative single-precision float.
///
/// Adds the exponent bias to the bit pattern and halves the whole pattern:
/// the unbiased exponent is halved (rounded down), the bit that falls out of
/// it becomes the top bit of the mantissa, and the mantissa is halved. The
/// result is within about 6% of the true square root for normal inputs.
pub fn sqrt_approx(bits: u32) -> (r: u32)
    requires
        !sign_bit(bits),
    ensures
        !sign_bit(r),
        exponent_field(r) == (exponent_field(bits) + 127) / 2,
        mantissa_field(r) == ((exponent_field(bits) + 127) % 2 * 0x80_0000 + mantissa_field(bits)) / 2,
{
    let t = bits + EXPONENT_ONE;
    let r = t >> 1;
    proof {
        assert(r < 0x8000_0000) by (bit_vector)
            requires
                bits < 0x8000_0000,
                t == bits + 0x3F80_0000u32,
                r == t >> 1u32,
        ;
        assert((r / 0x80_0000) % 0x100 == ((bits / 0x80_0000) % 0x100 + 127) / 2) by (bit_vector)
            requires
                bits < 0x8000_0000,
                t == bits + 0x3F80_0000u32,
                r == t >> 1u32,
        ;
        assert(r % 0x80_0000 == (((bits / 0x80_0000) % 0x100 + 127) % 2 * 0x80_0000 + bits
            % 0x80_0000) / 2) by (bit_vector)
            requires
                bits < 0x8000_0000,
                t == bits + 0x3F80_0000u32,
                r == t >> 1u32,
        ;
    }
    r
}

/// Quadrant offset for the normalized four-quadrant arctangent of `y / x`,
/// in units of a quarter turn counted from the sign bits alone: `0` when
/// neither is negative, `2` when `x` is negative, `4` when only `y` is.
pub fn quadrant_offset(y_bits: u32, x_bits: u32) -> (r: u32)
    ensures
        r == if sign_bit(x_bits) {
            2u32
        } else if sign_bit(y_bits) {
            4u32
        } else {
            0u32
        },
{
    let ux_s = SIGN_MASK & x_bits;
    let uy_s = SIGN_MASK & y_bits;
    let r = ((!ux_s & uy_s) >> 29) | (ux_s >> 30);
    proof {
        assert(r == if x_bits >= 0x8000_0000 {
            2u32
        } else if y_bits >= 0x8000_0000 {
            4u32
        } else {
            0u32
        }) by (bit_vector)
            requires
                ux_s == 0x8000_0000u32 & x_bits,
                uy_s == 0x8000_0000u32 & y_bits,
                r == ((!ux_s & uy_s) >> 29u32) | (ux_s >> 30u32),
        ;
    }
    r
}

/// Moves a first-quadrant arctangent into the quadrant of `(x, y)`: its sign
/// is flipped on where the signs of `x` and `y` differ; the other bits are
/// kept.
pub fn quadrant_sign(y_bits: u32, x_bits: u32, atan_bits: u32) -> (r: u32)
    ensures
        sign_bit(r) == (sign_bit(atan_bits) || sign_bit(x_bits) != sign_bit(y_bits)),
        r % 0x8000_0000 == atan_bits % 0x8000_0000,
{
    let ux_s = SIGN_MASK & x_bits;
    let uy_s = SIGN_MASK & y_bits;
    let r = (ux_s ^ uy_s) | atan_bits;
    proof {
        assert((r >= 0x8000_0000) == (atan_bits >= 0x8000_0000 || (x_bits >= 0x8000_0000) != (
        y_bits >= 0x8000_0000)) && r % 0x8000_0000 == atan_bits % 0x8000_0000) by (bit_vector)
            requires
                ux_s == 0x8000_0000u32 & x_bits,
                uy_s == 0x8000_0000u32 & y_bits,
                r == (ux_s ^ uy_s) | atan_bits,
        ;
    }
    r
}

} // verus!
