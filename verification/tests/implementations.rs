use algebraic_structures::fibonacci::fibonacci;
use algebraic_structures::implementations::helpers::multi::AssociativeCommutativeMulti;
use algebraic_structures::power::unsigned::pow;
use algebraic_structures::structures::basics::WithIdentityElement;
use algebraic_structures::structures::ring_like::{
    minus, multi, one, plus, unary_minus, zero, RingWithOne, SemiringWithOne,
};
use num::{BigInt, BigUint};

fn supplier_ring<T: RingWithOne>() {}

fn supplier_semiring<T: SemiringWithOne>() {}

#[test]
fn implementations_it_works() {
    supplier_semiring::<u8>();
    supplier_semiring::<u16>();
    supplier_semiring::<u32>();
    supplier_semiring::<u64>();
    supplier_semiring::<usize>();
    supplier_semiring::<BigUint>();

    supplier_ring::<i8>();
    supplier_ring::<i16>();
    supplier_ring::<i32>();
    supplier_ring::<i64>();
    supplier_ring::<isize>();
    supplier_ring::<BigInt>();
}

#[test]
fn machine_integers_add_and_multiply() {
    assert_eq!(plus(200u8, 55u8), 255);
    assert_eq!(multi(15u8, 17u8), 255);
    assert_eq!(plus(-100i8, -28i8), -128);
    assert_eq!(multi(-3i16, 7i16), -21);
    assert_eq!(plus(40_000u16, 25_535u16), 65_535);
    assert_eq!(multi(65_536u64, 65_536u64), 4_294_967_296);
    assert_eq!(plus(1usize, 2usize), 3);
    assert_eq!(multi(-4isize, -5isize), 20);
    assert_eq!(minus(7i64, 9i64), -2);
    assert_eq!(unary_minus(i32::MAX), -i32::MAX);
    assert_eq!(zero::<u32>(), 0);
    assert_eq!(one::<i64>(), 1);
}

#[test]
fn big_integers_have_their_identities() {
    assert_eq!(zero::<BigInt>(), BigInt::from(0));
    assert_eq!(one::<BigInt>(), BigInt::from(1));
    assert_eq!(zero::<BigUint>(), BigUint::from(0u8));
    let unit = AssociativeCommutativeMulti::<BigUint>::identity();
    assert_eq!(unit, BigUint::from(1u8));
    assert_eq!(multi(unit, BigUint::from(7u8)), BigUint::from(7u8));
    assert_eq!(plus(zero::<BigInt>(), BigInt::from(-7)), BigInt::from(-7));
}

#[test]
fn big_integers_add_multiply_and_negate() {
    let large = BigInt::from(u64::MAX);
    assert_eq!(
        plus(large.clone(), large.clone()),
        BigInt::from(2u128 * (u64::MAX as u128))
    );
    assert_eq!(
        multi(large.clone(), large.clone()),
        BigInt::from((u64::MAX as u128) * (u64::MAX as u128))
    );
    assert_eq!(plus(BigInt::from(2), BigInt::from(3)), BigInt::from(5));
    assert_eq!(multi(BigInt::from(-2), BigInt::from(3)), BigInt::from(-6));
    assert_eq!(unary_minus(BigInt::from(5)), BigInt::from(-5));
    assert_eq!(minus(BigInt::from(5), BigInt::from(8)), BigInt::from(-3));
    assert_eq!(
        plus(BigUint::from(u64::MAX), BigUint::from(1u8)),
        BigUint::from(1u128 << 64)
    );
    assert_eq!(
        multi(BigUint::from(1u64 << 40), BigUint::from(1u64 << 40)),
        BigUint::from(1u128 << 80)
    );
}

#[test]
fn big_integers_never_run_out() {
    let expected: BigInt = "354224848179261915075".parse().unwrap();
    assert_eq!(fibonacci::<BigInt>(100), expected);
    assert_eq!(pow(BigInt::from(2), 100), BigInt::from(1u128 << 100));
    assert_eq!(pow(BigInt::from(-3), 5), BigInt::from(-243));
}
