use float80::f80;
use float80::layout::MASK80;

#[test]
fn range() {
    assert_eq!(f80::from_bits(0b00101010).range(0, 8), 42); // all bits
    assert_eq!(f80::from_bits(0b00100101).range(5, 7), 0b01); // only 2 bits
}

#[test]
fn extract() {
    let eight = f80::from_bits(0b0_100000000000010_1_000000000000000000000000000000000000000000000000000000000000000);

    assert_eq!(eight.sign(), false);
    assert_eq!(eight.exp_bits(), 0b100000000000010);
    assert_eq!(eight.exp(), 0b000000000000011);
    assert_eq!(eight.int_bit(), true);
    assert_eq!(eight.fraction(), 0b000000000000000000000000000000000000000000000000000000000000000);
}

#[test]
fn masking_clears_high_bits() {
    assert_eq!(f80::from_bits(u128::MAX).to_bits(), MASK80);
    assert_eq!(f80::from_bits(1u128 << 80).to_bits(), 0);
    assert_eq!(f80::from_bits((1u128 << 100) | 42).to_bits(), 42);
    let x: u128 = 0xDEAD_BEEF_0123_4567_89AB_CDEF_0011_2233;
    assert_eq!(f80::from_bits(x).to_bits(), x & ((1u128 << 80) - 1));
}

#[test]
fn masking_keeps_valid_patterns() {
    assert_eq!(f80::from_bits(MASK80).to_bits(), MASK80);
    assert_eq!(f80::from_bits(0).to_bits(), 0);
}

#[test]
fn mantissa_is_int_bit_over_fraction() {
    let x = f80::from_bits(0x1234_8000_0000_0000_0ABC);
    assert_eq!(x.int_bit(), true);
    assert_eq!(x.fraction(), 0xABC);
    assert_eq!(x.mantissa(), (1u64 << 63) | 0xABC);

    let y = f80::from_bits(0x1234_7FFF_FFFF_FFFF_FFFF);
    assert_eq!(y.int_bit(), false);
    assert_eq!(y.fraction(), 0x7FFF_FFFF_FFFF_FFFF);
    assert_eq!(y.mantissa(), 0x7FFF_FFFF_FFFF_FFFF);
}

#[test]
fn exponent_differs_from_field_by_bias() {
    for bits in [0u128, 0x3FFF << 64, 0x7FFF << 64, 0xFFFF << 64, 0x4002 << 64] {
        let x = f80::from_bits(bits);
        assert_eq!(x.exp_bits() as i32 - x.exp() as i32, 16383);
    }
    assert_eq!(f80::from_bits(0).exp(), -16383);
    assert_eq!(f80::from_bits(0x7FFF << 64).exp(), 16384);
    assert_eq!(f80::from_bits(0x3FFF << 64).exp(), 0);
}

#[test]
fn sign_is_top_bit() {
    assert_eq!(f80::from_bits(1u128 << 79).sign(), true);
    assert_eq!(f80::from_bits(1u128 << 79).exp_bits(), 0);
    assert_eq!(f80::from_bits((1u128 << 79) - 1).sign(), false);
    assert_eq!(f80::from_bits((1u128 << 79) - 1).exp_bits(), 0x7FFF);
}
