//! Multiplication of integers.

use std::marker::PhantomData;
use vstd::prelude::*;
use crate::implementations::integers::Integral;
use crate::structures::basics::{Associative, Commutative, Magma, WithIdentityElement};

verus! {

/// The tag of the multiplication of `T`.
pub struct AssociativeCommutativeMulti<T>(PhantomData<T>);

impl<T: Integral> Magma<T> for AssociativeCommutativeMulti<T> {
    open spec fn defined(a: int, b: int) -> bool {
        T::representable(a * b)
    }

    open spec fn apply(a: int, b: int) -> int {
        a * b
    }

    fn operation(operand1: T, operand2: T) -> (result: T) {
        operand1.product(operand2)
    }
}

impl<T: Integral> Associative<T> for AssociativeCommutativeMulti<T> {
    proof fn associative(a: int, b: int, c: int) {
        vstd::arithmetic::mul::lemma_mul_is_associative(a, b, c);
    }
}

impl<T: Integral> Commutative<T> for AssociativeCommutativeMulti<T> {
    proof fn commutative(a: int, b: int) {
        vstd::arithmetic::mul::lemma_mul_is_commutative(a, b);
    }
}

impl<T: Integral> WithIdentityElement<T> for AssociativeCommutativeMulti<T> {
    open spec fn identity_model() -> int {
        1
    }

    fn identity() -> (result: T) {
        T::one_value()
    }

    proof fn identity_is_neutral(a: int) {
    }
}

} // verus!
