//! Conversion of an 80-bit float to the bits of a 64-bit IEEE-754 double,
//! done with integer operations alone.
//!
//! A double holds its sign in bit 63, an 11-bit exponent field biased by
//! 1023 in bits 52..63, and a 52-bit fraction in bits 0..52, under an
//! implicit leading 1.
use vstd::prelude::*;
use crate::layout::{exp_bits_of, exp_of, f80, fraction_of, int_bit_of, mantissa_of, sign_of};

verus! {

/// Bias of the exponent field of a double: `(1 << 10) - 1`.
pub const DOUBLE_BIAS: i32 = 1023;

/// Mask of the 11-bit exponent field of a double.
pub const DOUBLE_EXP_MASK: u64 = 0x7FF;

/// Mask of the 52-bit fraction field of a double.
pub const DOUBLE_FRACTION_MASK: u64 = 0xF_FFFF_FFFF_FFFF;

/// Number of low mantissa bits that a double has no room for: `64 - 53`.
pub const DROPPED_BITS: u64 = 11;

/// The reserved exponent field of the 80-bit format, which marks infinities
/// and NaNs.
pub const EXTENDED_SPECIAL_EXP: u16 = 0x7FFF;

/// The quiet NaN produced for every NaN input.
pub const NAN_BITS: u64 = 0x7FF8_0000_0000_0000;

/// Positive infinity.
pub const POSITIVE_INFINITY_BITS: u64 = 0x7FF0_0000_0000_0000;

/// Negative infinity.
pub const NEGATIVE_INFINITY_BITS: u64 = 0xFFF0_0000_0000_0000;

/// The double with the given sign, exponent field (low 11 bits) and fraction
/// (low 52 bits).
pub open spec fn pack_double(sign: bool, exp_field: u64, frac: u64) -> u64 {
    (if sign { 0x8000_0000_0000_0000u64 } else { 0u64 }) | ((exp_field & DOUBLE_EXP_MASK) << 52u64)
        | (frac & DOUBLE_FRACTION_MASK)
}

/// The sign bit of a double.
pub open spec fn double_sign(d: u64) -> bool {
    d >> 63u64 == 1
}

/// The exponent field of a double.
pub open spec fn double_exp_field(d: u64) -> u64 {
    (d >> 52u64) & DOUBLE_EXP_MASK
}

/// The fraction field of a double.
pub open spec fn double_fraction(d: u64) -> u64 {
    d & DOUBLE_FRACTION_MASK
}

/// Whether a double is a NaN.
pub open spec fn is_nan_double(d: u64) -> bool {
    double_exp_field(d) == DOUBLE_EXP_MASK && double_fraction(d) != 0
}

/// Whether a double is an infinity of either sign.
pub open spec fn is_infinite_double(d: u64) -> bool {
    double_exp_field(d) == DOUBLE_EXP_MASK && double_fraction(d) == 0
}

/// The infinity of the given sign.
pub open spec fn infinity_bits(negative: bool) -> u64 {
    if negative {
        NEGATIVE_INFINITY_BITS
    } else {
        POSITIVE_INFINITY_BITS
    }
}

/// The exponent re-biased for a double: the signed exponent plus 1023,
/// reduced to 11 bits (the low 11 bits of its two's complement). Exponents
/// out of a double's range are not clamped.
pub open spec fn rebiased_exp(p: u128) -> u64 {
    ((exp_of(p) + DOUBLE_BIAS) % 2048) as u64
}

/// The bits of the double that the pattern `p` converts to.
///
/// With the reserved exponent field all ones, a clear integer bit and an
/// all-zero mantissa give the infinity of the pattern's sign, and every other
/// mantissa gives NaN. Otherwise the sign is kept, the exponent re-biased, and
/// the fraction truncated to its top 52 bits; the integer bit is dropped, as a
/// double implies it.
pub open spec fn double_bits_of(p: u128) -> u64 {
    if exp_bits_of(p) == EXTENDED_SPECIAL_EXP {
        if !int_bit_of(p) && mantissa_of(p) == 0 {
            infinity_bits(sign_of(p))
        } else {
            NAN_BITS
        }
    } else {
        pack_double(sign_of(p), rebiased_exp(p), fraction_of(p) >> DROPPED_BITS)
    }
}

impl f80 {
    /// The bits of the nearest 64-bit double, found with integer operations:
    /// the low 11 mantissa bits are truncated, not rounded.
    pub fn to_f64_bits(self) -> (r: u64)
        ensures
            r == double_bits_of(self@),
    {
        // The reserved exponent: infinity or NaN.
        if self.exp_bits() == EXTENDED_SPECIAL_EXP {
            if !self.int_bit() && self.mantissa() == 0 {
                return if self.sign() {
                    NEGATIVE_INFINITY_BITS
                } else {
                    POSITIVE_INFINITY_BITS
                };
            } else {
                return NAN_BITS;
            }
        }
        // Truncate the fraction to the width of a double's.
        let fraction: u64 = self.fraction() >> DROPPED_BITS;
        // Move the exponent from one bias to the other.
        let biased: i32 = self.exp() as i32 + DOUBLE_BIAS;
        let sign: u64 = if self.sign() {
            1
        } else {
            0
        };

        // Assemble, from the sign down.
        let mut output: u64 = sign;
        output = output << 11u64;
        output = output | ((biased as u64) & DOUBLE_EXP_MASK);
        output = output << 52u64;
        output = output | (fraction & DOUBLE_FRACTION_MASK);

        proof {
            let p = self@;
            let e = (biased as u64) & DOUBLE_EXP_MASK;
            assert(e == ((biased as int) % 2048) as u64) by (bit_vector)
                requires
                    -20000 <= biased <= 20000,
                    e == (biased as u64) & DOUBLE_EXP_MASK,
            ;
            assert(e == rebiased_exp(p));
            let s = sign_of(p);
            assert(((((if s { 1u64 } else { 0u64 }) << 11u64) | e) << 52u64) | (fraction
                & DOUBLE_FRACTION_MASK) == pack_double(s, e, fraction)) by (bit_vector)
                requires
                    e <= DOUBLE_EXP_MASK,
            ;
        }
        output
    }
}

/// The bits that a pattern converts to hold its sign, its re-biased exponent
/// and the top 52 bits of its fraction, unless its exponent field is the
/// reserved one. With the reserved exponent field, a clear integer bit and a
/// zero fraction give an infinity of the pattern's sign, and any other
/// mantissa gives a NaN.
pub proof fn lemma_double_fields(x: f80)
    ensures
        exp_bits_of(x@) != EXTENDED_SPECIAL_EXP ==> {
            let d = double_bits_of(x@);
            &&& double_sign(d) == sign_of(x@)
            &&& double_exp_field(d) == rebiased_exp(x@)
            &&& double_fraction(d) == fraction_of(x@) >> DROPPED_BITS
        },
        exp_bits_of(x@) == EXTENDED_SPECIAL_EXP && !int_bit_of(x@) && fraction_of(x@) == 0 ==> {
            let d = double_bits_of(x@);
            &&& is_infinite_double(d)
            &&& double_sign(d) == sign_of(x@)
        },
        exp_bits_of(x@) == EXTENDED_SPECIAL_EXP && (int_bit_of(x@) || fraction_of(x@) != 0)
            ==> is_nan_double(double_bits_of(x@)),
{
    let p = x@;
    let s = sign_of(p);
    let e = rebiased_exp(p);
    let f = fraction_of(p) >> DROPPED_BITS;
    assert(e < 2048);
    assert(f < 0x10_0000_0000_0000) by (bit_vector)
        requires
            f == fraction_of(p) >> DROPPED_BITS,
    ;
    assert({
        let d = pack_double(s, e, f);
        &&& double_sign(d) == s
        &&& double_exp_field(d) == e
        &&& double_fraction(d) == f
    }) by (bit_vector)
        requires
            e < 2048,
            f < 0x10_0000_0000_0000,
    ;
    assert(mantissa_of(p) == 0 <==> (!int_bit_of(p) && fraction_of(p) == 0)) by (bit_vector);
    assert(is_infinite_double(POSITIVE_INFINITY_BITS) && !double_sign(POSITIVE_INFINITY_BITS))
        by (bit_vector);
    assert(is_infinite_double(NEGATIVE_INFINITY_BITS) && double_sign(NEGATIVE_INFINITY_BITS))
        by (bit_vector);
    assert(is_nan_double(NAN_BITS)) by (bit_vector);
}

} // verus!
