//! Integer types as elements of the ring of integers.
//!
//! A value of an integer type denotes a mathematical integer. The type says
//! which integers it can represent; arithmetic on it is exact wherever the
//! result is among them, and is not offered elsewhere.

use num::{BigInt, BigUint, One, Zero};
use vstd::prelude::*;
use crate::implementations::helpers::multi::AssociativeCommutativeMulti;
use crate::implementations::helpers::sum::AssociativeCommutativeSum;
use crate::structures::basics::Element;
use crate::structures::ring_like::{Distributive, Semiring};

verus! {

/// An integer type.
pub trait Integral: Sized + Clone {
    /// The integer that `self` denotes.
    spec fn value(&self) -> int;

    /// Whether the type has a value that denotes `v`.
    spec fn representable(v: int) -> bool;

    /// A clone denotes the same integer as its original.
    proof fn clone_keeps_value(original: Self, copy: Self)
        requires
            cloned(original, copy),
        ensures
            copy.value() == original.value(),
    ;

    /// The type has values for 0 and for 1.
    proof fn representable_units()
        ensures
            Self::representable(0),
            Self::representable(1),
    ;

    /// With any two integers the type has values for every integer between
    /// them.
    proof fn representable_between(low: int, middle: int, high: int)
        requires
            low <= middle <= high,
            Self::representable(low),
            Self::representable(high),
        ensures
            Self::representable(middle),
    ;

    fn zero_value() -> (result: Self)
        ensures
            result.value() == 0,
    ;

    fn one_value() -> (result: Self)
        ensures
            result.value() == 1,
    ;

    fn sum(self, other: Self) -> (result: Self)
        requires
            Self::representable(self.value() + other.value()),
        ensures
            result.value() == self.value() + other.value(),
    ;

    fn product(self, other: Self) -> (result: Self)
        requires
            Self::representable(self.value() * other.value()),
        ensures
            result.value() == self.value() * other.value(),
    ;
}

/// An integer type with negative values.
pub trait SignedIntegral: Integral {
    fn negation(self) -> (result: Self)
        requires
            Self::representable(-self.value()),
        ensures
            result.value() == -self.value(),
    ;
}

impl<T: Integral> Element for T {
    type Model = int;

    open spec fn model(&self) -> int {
        self.value()
    }

    proof fn clone_keeps_model(original: Self, copy: Self) {
        T::clone_keeps_value(original, copy);
    }
}

impl<T: Integral> Semiring for T {
    type Sum = AssociativeCommutativeSum<T>;

    type Multi = AssociativeCommutativeMulti<T>;
}

impl<T: Integral> Distributive for T {
    proof fn distributes_from_left(a: int, b: int, c: int) {
        vstd::arithmetic::mul::lemma_mul_is_distributive_add(a, b, c);
    }

    proof fn distributes_from_right(a: int, b: int, c: int) {
        vstd::arithmetic::mul::lemma_mul_is_distributive_add_other_way(c, a, b);
    }

    proof fn zero_annihilates(a: int) {
    }
}

impl Integral for i8 {
    open spec fn value(&self) -> int {
        *self as int
    }

    open spec fn representable(v: int) -> bool {
        i8::MIN <= v <= i8::MAX
    }

    proof fn clone_keeps_value(original: i8, copy: i8) {
    }

    proof fn representable_units() {
    }

    proof fn representable_between(low: int, middle: int, high: int) {
    }

    fn zero_value() -> (result: i8) {
        0
    }

    fn one_value() -> (result: i8) {
        1
    }

    fn sum(self, other: i8) -> (result: i8) {
        self + other
    }

    fn product(self, other: i8) -> (result: i8) {
        self * other
    }
}

impl SignedIntegral for i8 {
    fn negation(self) -> (result: i8) {
        -self
    }
}

impl Integral for u8 {
    open spec fn value(&self) -> int {
        *self as int
    }

    open spec fn representable(v: int) -> bool {
        u8::MIN <= v <= u8::MAX
    }

    proof fn clone_keeps_value(original: u8, copy: u8) {
    }

    proof fn representable_units() {
    }

    proof fn representable_between(low: int, middle: int, high: int) {
    }

    fn zero_value() -> (result: u8) {
        0
    }

    fn one_value() -> (result: u8) {
        1
    }

    fn sum(self, other: u8) -> (result: u8) {
        self + other
    }

    fn product(self, other: u8) -> (result: u8) {
        self * other
    }
}

impl Integral for i16 {
    open spec fn value(&self) -> int {
        *self as int
    }

    open spec fn representable(v: int) -> bool {
        i16::MIN <= v <= i16::MAX
    }

    proof fn clone_keeps_value(original: i16, copy: i16) {
    }

    proof fn representable_units() {
    }

    proof fn representable_between(low: int, middle: int, high: int) {
    }

    fn zero_value() -> (result: i16) {
        0
    }

    fn one_value() -> (result: i16) {
        1
    }

    fn sum(self, other: i16) -> (result: i16) {
        self + other
    }

    fn product(self, other: i16) -> (result: i16) {
        self * other
    }
}

impl SignedIntegral for i16 {
    fn negation(self) -> (result: i16) {
        -self
    }
}

impl Integral for u16 {
    open spec fn value(&self) -> int {
        *self as int
    }

    open spec fn representable(v: int) -> bool {
        u16::MIN <= v <= u16::MAX
    }

    proof fn clone_keeps_value(original: u16, copy: u16) {
    }

    proof fn representable_units() {
    }

    proof fn representable_between(low: int, middle: int, high: int) {
    }

    fn zero_value() -> (result: u16) {
        0
    }

    fn one_value() -> (result: u16) {
        1
    }

    fn sum(self, other: u16) -> (result: u16) {
        self + other
    }

    fn product(self, other: u16) -> (result: u16) {
        self * other
    }
}

impl Integral for i32 {
    open spec fn value(&self) -> int {
        *self as int
    }

    open spec fn representable(v: int) -> bool {
        i32::MIN <= v <= i32::MAX
    }

    proof fn clone_keeps_value(original: i32, copy: i32) {
    }

    proof fn representable_units() {
    }

    proof fn representable_between(low: int, middle: int, high: int) {
    }

    fn zero_value() -> (result: i32) {
        0
    }

    fn one_value() -> (result: i32) {
        1
    }

    fn sum(self, other: i32) -> (result: i32) {
        self + other
    }

    fn product(self, other: i32) -> (result: i32) {
        self * other
    }
}

impl SignedIntegral for i32 {
    fn negation(self) -> (result: i32) {
        -self
    }
}

impl Integral for u32 {
    open spec fn value(&self) -> int {
        *self as int
    }

    open spec fn representable(v: int) -> bool {
        u32::MIN <= v <= u32::MAX
    }

    proof fn clone_keeps_value(original: u32, copy: u32) {
    }

    proof fn representable_units() {
    }

    proof fn representable_between(low: int, middle: int, high: int) {
    }

    fn zero_value() -> (result: u32) {
        0
    }

    fn one_value() -> (result: u32) {
        1
    }

    fn sum(self, other: u32) -> (result: u32) {
        self + other
    }

    fn product(self, other: u32) -> (result: u32) {
        self * other
    }
}

impl Integral for i64 {
    open spec fn value(&self) -> int {
        *self as int
    }

    open spec fn representable(v: int) -> bool {
        i64::MIN <= v <= i64::MAX
    }

    proof fn clone_keeps_value(original: i64, copy: i64) {
    }

    proof fn representable_units() {
    }

    proof fn representable_between(low: int, middle: int, high: int) {
    }

    fn zero_value() -> (result: i64) {
        0
    }

    fn one_value() -> (result: i64) {
        1
    }

    fn sum(self, other: i64) -> (result: i64) {
        self + other
    }

    fn product(self, other: i64) -> (result: i64) {
        self * other
    }
}

impl SignedIntegral for i64 {
    fn negation(self) -> (result: i64) {
        -self
    }
}

impl Integral for u64 {
    open spec fn value(&self) -> int {
        *self as int
    }

    open spec fn representable(v: int) -> bool {
        u64::MIN <= v <= u64::MAX
    }

    proof fn clone_keeps_value(original: u64, copy: u64) {
    }

    proof fn representable_units() {
    }

    proof fn representable_between(low: int, middle: int, high: int) {
    }

    fn zero_value() -> (result: u64) {
        0
    }

    fn one_value() -> (result: u64) {
        1
    }

    fn sum(self, other: u64) -> (result: u64) {
        self + other
    }

    fn product(self, other: u64) -> (result: u64) {
        self * other
    }
}

impl Integral for isize {
    open spec fn value(&self) -> int {
        *self as int
    }

    open spec fn representable(v: int) -> bool {
        isize::MIN <= v <= isize::MAX
    }

    proof fn clone_keeps_value(original: isize, copy: isize) {
    }

    proof fn representable_units() {
    }

    proof fn representable_between(low: int, middle: int, high: int) {
    }

    fn zero_value() -> (result: isize) {
        0
    }

    fn one_value() -> (result: isize) {
        1
    }

    fn sum(self, other: isize) -> (result: isize) {
        self + other
    }

    fn product(self, other: isize) -> (result: isize) {
        self * other
    }
}

impl SignedIntegral for isize {
    fn negation(self) -> (result: isize) {
        -self
    }
}

impl Integral for usize {
    open spec fn value(&self) -> int {
        *self as int
    }

    open spec fn representable(v: int) -> bool {
        usize::MIN <= v <= usize::MAX
    }

    proof fn clone_keeps_value(original: usize, copy: usize) {
    }

    proof fn representable_units() {
    }

    proof fn representable_between(low: int, middle: int, high: int) {
    }

    fn zero_value() -> (result: usize) {
        0
    }

    fn one_value() -> (result: usize) {
        1
    }

    fn sum(self, other: usize) -> (result: usize) {
        self + other
    }

    fn product(self, other: usize) -> (result: usize) {
        self * other
    }
}

/// `num::BigInt`, an integer of any size.
#[verifier::external_type_specification]
#[verifier::external_body]
pub struct ExBigInt(num::BigInt);

/// `num::BigUint`, an integer of any size that is not negative.
#[verifier::external_type_specification]
#[verifier::external_body]
pub struct ExBigUint(num::BigUint);

/// The integer that a `BigInt` holds.
pub uninterp spec fn big_int_value(number: BigInt) -> int;

/// The integer that a `BigUint` holds.
pub uninterp spec fn big_uint_value(number: BigUint) -> nat;

/// `<BigInt as Clone>::clone` copies sign and digits: the clone holds the
/// same integer.
pub assume_specification[ <BigInt as Clone>::clone ](number: &BigInt) -> (copy: BigInt)
    ensures
        big_int_value(copy) == big_int_value(*number),
;

/// `<BigUint as Clone>::clone` copies the digits: the clone holds the same
/// integer.
pub assume_specification[ <BigUint as Clone>::clone ](number: &BigUint) -> (copy: BigUint)
    ensures
        big_uint_value(copy) == big_uint_value(*number),
;

/// `<BigInt as Zero>::zero` returns the constant `BigInt::ZERO`, which holds
/// 0.
#[verifier::external_body]
fn big_int_zero() -> (zero: BigInt)
    ensures
        big_int_value(zero) == 0,
{
    BigInt::zero()
}

/// `<BigInt as One>::one` returns the constant `BigInt::ONE`, which holds 1.
#[verifier::external_body]
fn big_int_one() -> (one: BigInt)
    ensures
        big_int_value(one) == 1,
{
    BigInt::one()
}

/// `<BigInt as Add>::add` is the sum of the two integers, whatever their
/// size.
#[verifier::external_body]
fn big_int_sum(left: BigInt, right: BigInt) -> (sum: BigInt)
    ensures
        big_int_value(sum) == big_int_value(left) + big_int_value(right),
{
    left + right
}

/// `<BigInt as Mul>::mul` is the product of the two integers, whatever
/// their size.
#[verifier::external_body]
fn big_int_product(left: BigInt, right: BigInt) -> (product: BigInt)
    ensures
        big_int_value(product) == big_int_value(left) * big_int_value(right),
{
    left * right
}

/// `<BigInt as Neg>::neg` flips the sign and keeps the digits.
#[verifier::external_body]
fn big_int_negation(number: BigInt) -> (negation: BigInt)
    ensures
        big_int_value(negation) == -big_int_value(number),
{
    -number
}

/// `<BigUint as Zero>::zero` returns the constant `BigUint::ZERO`, which
/// holds 0.
#[verifier::external_body]
fn big_uint_zero() -> (zero: BigUint)
    ensures
        big_uint_value(zero) == 0,
{
    BigUint::zero()
}

/// `<BigUint as One>::one` returns the constant `BigUint::ONE`, which holds
/// 1.
#[verifier::external_body]
fn big_uint_one() -> (one: BigUint)
    ensures
        big_uint_value(one) == 1,
{
    BigUint::one()
}

/// `<BigUint as Add>::add` is the sum of the two integers, whatever their
/// size.
#[verifier::external_body]
fn big_uint_sum(left: BigUint, right: BigUint) -> (sum: BigUint)
    ensures
        big_uint_value(sum) == big_uint_value(left) + big_uint_value(right),
{
    left + right
}

/// `<BigUint as Mul>::mul` is the product of the two integers, whatever
/// their size.
#[verifier::external_body]
fn big_uint_product(left: BigUint, right: BigUint) -> (product: BigUint)
    ensures
        big_uint_value(product) == big_uint_value(left) * big_uint_value(right),
{
    left * right
}

impl Integral for BigInt {
    open spec fn value(&self) -> int {
        big_int_value(*self)
    }

    open spec fn representable(v: int) -> bool {
        true
    }

    proof fn clone_keeps_value(original: BigInt, copy: BigInt) {
    }

    proof fn representable_units() {
    }

    proof fn representable_between(low: int, middle: int, high: int) {
    }

    fn zero_value() -> (result: BigInt) {
        big_int_zero()
    }

    fn one_value() -> (result: BigInt) {
        big_int_one()
    }

    fn sum(self, other: BigInt) -> (result: BigInt) {
        big_int_sum(self, other)
    }

    fn product(self, other: BigInt) -> (result: BigInt) {
        big_int_product(self, other)
    }
}

impl SignedIntegral for BigInt {
    fn negation(self) -> (result: BigInt) {
        big_int_negation(self)
    }
}

impl Integral for BigUint {
    open spec fn value(&self) -> int {
        big_uint_value(*self) as int
    }

    open spec fn representable(v: int) -> bool {
        0 <= v
    }

    proof fn clone_keeps_value(original: BigUint, copy: BigUint) {
    }

    proof fn representable_units() {
    }

    proof fn representable_between(low: int, middle: int, high: int) {
    }

    fn zero_value() -> (result: BigUint) {
        big_uint_zero()
    }

    fn one_value() -> (result: BigUint) {
        big_uint_one()
    }

    fn sum(self, other: BigUint) -> (result: BigUint) {
        big_uint_sum(self, other)
    }

    fn product(self, other: BigUint) -> (result: BigUint) {
        big_uint_product(self, other)
    }
}

} // verus!
