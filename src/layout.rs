//! The 80-bit pattern and its fields.
//!
//! | field       | bits   |
//! |-------------|--------|
//! | fraction    | 0..63  |
//! | integer bit | 63     |
//! | exponent    | 64..79 |
//! | sign        | 79     |
use vstd::prelude::*;

verus! {

/// Mask of the 80 meaningful bits of the pattern: `(1 << 80) - 1`.
pub const MASK80: u128 = 0xFFFF_FFFF_FFFF_FFFF_FFFF;

/// Bias of the 15-bit exponent field: `(1 << 14) - 1`.
pub const EXP_BIAS: i16 = 16383;

/// Bits `[start, end)` of `p`, shifted down to bit 0.
pub open spec fn range_of(p: u128, start: u8, end: u8) -> u128 {
    (p & (((1u128 << end) - 1) as u128)) >> start
}

/// The full 64-bit mantissa: bits 0..64.
pub open spec fn mantissa_of(p: u128) -> u64 {
    (p & 0xFFFF_FFFF_FFFF_FFFF) as u64
}

/// The fraction: bits 0..63.
pub open spec fn fraction_of(p: u128) -> u64 {
    (p & 0x7FFF_FFFF_FFFF_FFFF) as u64
}

/// The explicit integer bit: bit 63.
pub open spec fn int_bit_of(p: u128) -> bool {
    (p >> 63) & 1 == 1
}

/// The biased exponent field: bits 64..79.
pub open spec fn exp_bits_of(p: u128) -> u16 {
    ((p >> 64) & 0x7FFF) as u16
}

/// The unbiased exponent.
pub open spec fn exp_of(p: u128) -> int {
    exp_bits_of(p) - EXP_BIAS
}

/// The sign: bit 79, set for negative values.
pub open spec fn sign_of(p: u128) -> bool {
    (p >> 79) & 1 == 1
}

/// An 80-bit float, stored in one 128-bit integer whose bits 80..128 are zero.
#[derive(Clone, Copy, Debug)]
pub struct f80 {
    bits: u128,
}

impl View for f80 {
    type V = u128;

    /// The stored bit pattern.
    closed spec fn view(&self) -> u128 {
        self.bits
    }
}

impl f80 {
    #[verifier::type_invariant]
    spec fn inv(self) -> bool {
        self.bits & MASK80 == self.bits
    }

    /// New value from the given bits; bits 80 and above are cleared.
    pub fn from_bits(bits: u128) -> (r: Self)
        ensures
            r@ == bits & MASK80,
    {
        let masked = bits & MASK80;
        assert(masked & MASK80 == masked) by (bit_vector)
            requires
                masked == bits & MASK80,
        ;
        f80 { bits: masked }
    }

    /// The stored bits; bits 80..128 are always zero.
    pub fn to_bits(self) -> (r: u128)
        ensures
            r == self@,
            r & MASK80 == r,
            r < 0x1_0000_0000_0000_0000_0000,
    {
        proof {
            use_type_invariant(&self);
            let b = self.bits;
            assert(b & MASK80 == b ==> b < 0x1_0000_0000_0000_0000_0000u128) by (bit_vector);
        }
        self.bits
    }

    /// Bits `[start, end)` of the pattern, shifted down to bit 0.
    pub fn range(self, start: u8, end: u8) -> (r: u128)
        requires
            start < end <= 80,
        ensures
            r == range_of(self@, start, end),
    {
        assert(1u128 << end >= 1) by (bit_vector)
            requires
                end <= 80,
        ;
        let mask: u128 = (1u128 << end) - 1;
        (self.bits & mask) >> start
    }

    /// The full mantissa: fraction and integer bit.
    pub fn mantissa(self) -> (r: u64)
        ensures
            r == mantissa_of(self@),
    {
        let m = self.range(0, 64);
        proof {
            let p = self@;
            assert(range_of(p, 0, 64) as u64 == mantissa_of(p)) by (bit_vector);
        }
        m as u64
    }

    /// The fraction part of the mantissa; bit 63 of the result is zero.
    pub fn fraction(self) -> (r: u64)
        ensures
            r == fraction_of(self@),
            r < 0x8000_0000_0000_0000,
    {
        let f = self.range(0, 63);
        proof {
            let p = self@;
            assert(range_of(p, 0, 63) as u64 == fraction_of(p)) by (bit_vector);
            assert(fraction_of(p) < 0x8000_0000_0000_0000u64) by (bit_vector);
        }
        f as u64
    }

    /// The explicit integer part of the mantissa.
    pub fn int_bit(self) -> (r: bool)
        ensures
            r == int_bit_of(self@),
    {
        let i = self.range(63, 64);
        proof {
            let p = self@;
            assert((range_of(p, 63, 64) == 1) == int_bit_of(p)) by (bit_vector);
        }
        i == 1
    }

    /// The biased exponent field; it fits in 15 bits.
    pub fn exp_bits(self) -> (r: u16)
        ensures
            r == exp_bits_of(self@),
            r <= 0x7FFF,
    {
        let e = self.range(64, 79);
        proof {
            let p = self@;
            assert(range_of(p, 64, 79) as u16 == exp_bits_of(p)) by (bit_vector);
            assert(exp_bits_of(p) <= 0x7FFFu16) by (bit_vector);
        }
        e as u16
    }

    /// The exponent with the bias taken off.
    pub fn exp(self) -> (r: i16)
        ensures
            r == exp_of(self@),
            -EXP_BIAS <= r <= EXP_BIAS + 1,
    {
        self.exp_bits() as i16 - EXP_BIAS
    }

    /// The sign: true for negative values.
    pub fn sign(self) -> (r: bool)
        ensures
            r == sign_of(self@),
    {
        let s = self.range(79, 80);
        proof {
            let p = self@;
            assert((range_of(p, 79, 80) == 1) == sign_of(p)) by (bit_vector);
        }
        s == 1
    }
}

/// Masking: a pattern built from any 128-bit value keeps exactly its low 80
/// bits, so it is below `1 << 80`, and a value already below `1 << 80` is
/// kept whole.
pub proof fn lemma_masking(x: u128)
    ensures
        x & MASK80 == x % 0x1_0000_0000_0000_0000_0000,
        x & MASK80 < 0x1_0000_0000_0000_0000_0000,
        x < 0x1_0000_0000_0000_0000_0000 ==> x & MASK80 == x,
{
    assert(x & MASK80 == x % 0x1_0000_0000_0000_0000_0000u128) by (bit_vector);
}

/// The mantissa is the integer bit, as its top bit, above the 63 bits of the
/// fraction.
pub proof fn lemma_mantissa_concat(x: f80)
    ensures
        mantissa_of(x@) == ((if int_bit_of(x@) { 1u64 } else { 0u64 }) << 63u64) | fraction_of(x@),
        mantissa_of(x@) as int == (if int_bit_of(x@) { 0x8000_0000_0000_0000int } else { 0int })
            + fraction_of(x@),
{
    let p = x@;
    assert(mantissa_of(p) == ((if int_bit_of(p) { 1u64 } else { 0u64 }) << 63u64) | fraction_of(p))
        by (bit_vector);
    assert(mantissa_of(p) == (if int_bit_of(p) { 0x8000_0000_0000_0000u64 } else { 0u64 })
        + fraction_of(p)) by (bit_vector);
}

/// The exponent field and the exponent differ by the bias, for every pattern.
pub proof fn lemma_bias_symmetry(x: f80)
    ensures
        exp_bits_of(x@) - exp_of(x@) == EXP_BIAS,
{
}

} // verus!
