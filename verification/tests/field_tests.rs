use linreg_air::field::{Felt, MODULUS};
use winterfell::math::fields::f128::BaseElement;
use winterfell::math::{FieldElement, StarkField};

fn engine_value(value: u128) -> BaseElement {
    BaseElement::new(value)
}

#[test]
fn modulus_is_the_modulus_of_the_engine_field() {
    assert_eq!(MODULUS, 340282366920938463463374557953744961537);
    assert_eq!(MODULUS, (1u128 << 127) - 45 * (1u128 << 40) + (1u128 << 127) + 1);
    assert_eq!(MODULUS, BaseElement::MODULUS);
}

#[test]
fn new_keeps_a_canonical_value() {
    assert_eq!(Felt::new(0).as_int(), 0);
    assert_eq!(Felt::new(25).as_int(), 25);
    assert_eq!(Felt::new(MODULUS - 1).as_int(), MODULUS - 1);
}

#[test]
fn new_reduces_a_value_at_or_above_the_modulus() {
    assert_eq!(Felt::new(MODULUS).as_int(), 0);
    assert_eq!(Felt::new(MODULUS + 5).as_int(), 5);
    assert_eq!(Felt::new(u128::MAX).as_int(), u128::MAX - MODULUS);
    assert_eq!(Felt::new(u128::MAX).as_int(), engine_value(u128::MAX).as_int());
}

#[test]
fn zero_is_the_additive_identity() {
    assert_eq!(Felt::zero().as_int(), 0);
    assert_eq!(Felt::new(17).add(Felt::zero()), Felt::new(17));
}

#[test]
fn addition_of_small_values_is_exact() {
    assert_eq!(Felt::new(18).add(Felt::new(7)).as_int(), 25);
}

#[test]
fn addition_wraps_at_the_modulus() {
    assert_eq!(Felt::new(MODULUS - 1).add(Felt::new(1)).as_int(), 0);
    assert_eq!(Felt::new(MODULUS - 1).add(Felt::new(MODULUS - 1)).as_int(), MODULUS - 2);
    assert_eq!(Felt::new(MODULUS - 3).add(Felt::new(10)).as_int(), 7);
}

#[test]
fn subtraction_of_small_values_is_exact() {
    assert_eq!(Felt::new(25).sub(Felt::new(18)).as_int(), 7);
    assert_eq!(Felt::new(25).sub(Felt::new(25)).as_int(), 0);
}

#[test]
fn subtraction_borrows_from_the_modulus() {
    assert_eq!(Felt::new(0).sub(Felt::new(1)).as_int(), MODULUS - 1);
    assert_eq!(Felt::new(3).sub(Felt::new(10)).as_int(), MODULUS - 7);
}

#[test]
fn multiplication_of_small_values_is_exact() {
    assert_eq!(Felt::new(3).mul(Felt::new(6)).as_int(), 18);
    assert_eq!(Felt::new(0).mul(Felt::new(6)).as_int(), 0);
    assert_eq!(Felt::new(6).mul(Felt::new(0)).as_int(), 0);
    assert_eq!(Felt::new(1).mul(Felt::new(MODULUS - 1)).as_int(), MODULUS - 1);
}

#[test]
fn multiplication_reduces_modulo_the_modulus() {
    // (-1) * (-1) = 1 and (-1) * 2 = -2
    assert_eq!(Felt::new(MODULUS - 1).mul(Felt::new(MODULUS - 1)).as_int(), 1);
    assert_eq!(Felt::new(MODULUS - 1).mul(Felt::new(2)).as_int(), MODULUS - 2);
    // 2^64 * 2^64 = 2^128 = 45 * 2^40 - 1 modulo the modulus
    let two_64: u128 = 1u128 << 64;
    assert_eq!(
        Felt::new(two_64).mul(Felt::new(two_64)).as_int(),
        45 * (1u128 << 40) - 1
    );
}

#[test]
fn arithmetic_agrees_with_the_engine_field() {
    let samples: [u128; 8] = [
        0,
        1,
        2,
        0xffff_ffff_ffff_ffff,
        0x1_0000_0000_0000_0000,
        123456789012345678901234567890123456,
        MODULUS - 2,
        MODULUS - 1,
    ];
    for &a in samples.iter() {
        for &b in samples.iter() {
            let (x, y) = (Felt::new(a), Felt::new(b));
            let (p, q) = (engine_value(a), engine_value(b));
            assert_eq!(x.add(y).as_int(), (p + q).as_int());
            assert_eq!(x.sub(y).as_int(), (p - q).as_int());
            assert_eq!(x.mul(y).as_int(), (p * q).as_int());
        }
    }
}

#[test]
fn equals_compares_field_values() {
    assert!(Felt::new(5).equals(&Felt::new(MODULUS + 5)));
    assert!(!Felt::new(5).equals(&Felt::new(6)));
    assert_eq!(Felt::new(5), Felt::new(MODULUS + 5));
    assert_ne!(Felt::new(5), Felt::new(6));
}

#[test]
fn one_of_the_engine_field_is_one() {
    assert_eq!(Felt::new(1).as_int(), BaseElement::ONE.as_int());
}
