//! Addition of integers.

use std::marker::PhantomData;
use vstd::prelude::*;
use crate::implementations::integers::{Integral, SignedIntegral};
use crate::structures::basics::{Associative, Commutative, Invertible, Magma, WithIdentityElement};

verus! {

/// The tag of the addition of `T`.
pub struct AssociativeCommutativeSum<T>(PhantomData<T>);

impl<T: Integral> Magma<T> for AssociativeCommutativeSum<T> {
    open spec fn defined(a: int, b: int) -> bool {
        T::representable(a + b)
    }

    open spec fn apply(a: int, b: int) -> int {
        a + b
    }

    fn operation(operand1: T, operand2: T) -> (result: T) {
        operand1.sum(operand2)
    }
}

impl<T: Integral> Associative<T> for AssociativeCommutativeSum<T> {
    proof fn associative(a: int, b: int, c: int) {
    }
}

impl<T: Integral> Commutative<T> for AssociativeCommutativeSum<T> {
    proof fn commutative(a: int, b: int) {
    }
}

impl<T: Integral> WithIdentityElement<T> for AssociativeCommutativeSum<T> {
    open spec fn identity_model() -> int {
        0
    }

    fn identity() -> (result: T) {
        T::zero_value()
    }

    proof fn identity_is_neutral(a: int) {
    }
}

impl<T: SignedIntegral> Invertible<T> for AssociativeCommutativeSum<T> {
    open spec fn invertible(a: int) -> bool {
        T::representable(-a)
    }

    open spec fn inverse_of(a: int) -> int {
        -a
    }

    fn inverse(operand: T) -> (result: T) {
        operand.negation()
    }

    proof fn inverse_absorbs(a: int) {
    }
}

/// An integer and its additive inverse add up to the additive identity.
pub proof fn lemma_inverse_cancels<T: SignedIntegral>(a: int)
    ensures
        AssociativeCommutativeSum::<T>::apply(a, AssociativeCommutativeSum::<T>::inverse_of(a))
            == AssociativeCommutativeSum::<T>::identity_model(),
        AssociativeCommutativeSum::<T>::apply(AssociativeCommutativeSum::<T>::inverse_of(a), a)
            == AssociativeCommutativeSum::<T>::identity_model(),
{
}

} // verus!
