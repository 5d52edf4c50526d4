//! The ring-like facade: a value type with an additive and a multiplicative
//! operation, and ordinary arithmetic as free functions over it.

use vstd::prelude::*;
use crate::structures::basics::{Element, Invertible, Magma, WithIdentityElement};
use crate::structures::group_like::{AbelGroup, CommutativeMonoid, CommutativeSemigroup, Monoid, Semigroup};

verus! {

/// A value type with two operations: `Sum`, a commutative monoid, and
/// `Multi`, a semigroup.
pub trait Semiring: Element {
    type Sum: CommutativeMonoid<Self>;

    type Multi: Semigroup<Self>;
}

/// The two operations of a semiring work together as those of numbers do:
/// multiplication distributes over addition from both sides, and the
/// additive identity annihilates.
///
/// This is a capability of its own because not every pairing has it: the
/// matrix type, whose diagonal overlay takes the shape of the finite operand
/// it meets, distributes only where the shapes on both sides agree.
pub trait Distributive: Semiring {
    proof fn distributes_from_left(a: Self::Model, b: Self::Model, c: Self::Model)
        ensures
            Self::Multi::apply(a, Self::Sum::apply(b, c)) == Self::Sum::apply(
                Self::Multi::apply(a, b),
                Self::Multi::apply(a, c),
            ),
    ;

    proof fn distributes_from_right(a: Self::Model, b: Self::Model, c: Self::Model)
        ensures
            Self::Multi::apply(Self::Sum::apply(a, b), c) == Self::Sum::apply(
                Self::Multi::apply(a, c),
                Self::Multi::apply(b, c),
            ),
    ;

    proof fn zero_annihilates(a: Self::Model)
        ensures
            Self::Multi::apply(Self::Sum::identity_model(), a) == Self::Sum::identity_model(),
            Self::Multi::apply(a, Self::Sum::identity_model()) == Self::Sum::identity_model(),
    ;
}

/// A semiring whose multiplication has an identity.
pub trait SemiringWithOne: Semiring<Multi: Monoid<Self>> {
}

impl<T: Semiring<Multi: Monoid<T>>> SemiringWithOne for T {
}

/// A semiring whose multiplication is commutative.
pub trait CommutativeSemiring: Semiring<Multi: CommutativeSemigroup<Self>> {
}

impl<T: Semiring<Multi: CommutativeSemigroup<T>>> CommutativeSemiring for T {
}

/// A commutative semiring whose multiplication has an identity.
pub trait CommutativeSemiringWithOne: Semiring<Multi: CommutativeMonoid<Self>> {
}

impl<T: Semiring<Multi: CommutativeMonoid<T>>> CommutativeSemiringWithOne for T {
}

/// A semiring whose addition has inverses.
pub trait Ring: Semiring<Sum: AbelGroup<Self>> {
}

impl<T: Semiring<Sum: AbelGroup<T>>> Ring for T {
}

/// A ring whose multiplication has an identity.
pub trait RingWithOne: Semiring<Sum: AbelGroup<Self>, Multi: Monoid<Self>> {
}

impl<T: Semiring<Sum: AbelGroup<T>, Multi: Monoid<T>>> RingWithOne for T {
}

/// A ring whose multiplication is commutative.
pub trait CommutativeRing: Semiring<Sum: AbelGroup<Self>, Multi: CommutativeSemigroup<Self>> {
}

impl<T: Semiring<Sum: AbelGroup<T>, Multi: CommutativeSemigroup<T>>> CommutativeRing for T {
}

/// A commutative ring whose multiplication has an identity.
pub trait CommutativeRingWithOne: Semiring<Sum: AbelGroup<Self>, Multi: CommutativeMonoid<Self>> {
}

impl<T: Semiring<Sum: AbelGroup<T>, Multi: CommutativeMonoid<T>>> CommutativeRingWithOne for T {
}

/// A commutative ring with one whose multiplication has inverses. Which
/// elements have one is for the value type to say: the reciprocal of the
/// additive identity is not specified here.
pub trait Field: Semiring<Sum: AbelGroup<Self>, Multi: AbelGroup<Self>> {
}

impl<T: Semiring<Sum: AbelGroup<T>, Multi: AbelGroup<T>>> Field for T {
}

/// The additive identity of `T`.
pub fn zero<T: Semiring>() -> (result: T)
    ensures
        result.model() == T::Sum::identity_model(),
{
    T::Sum::identity()
}

/// The sum of the operands.
pub fn plus<T: Semiring>(operand1: T, operand2: T) -> (result: T)
    requires
        T::Sum::defined(operand1.model(), operand2.model()),
    ensures
        result.model() == T::Sum::apply(operand1.model(), operand2.model()),
{
    T::Sum::operation(operand1, operand2)
}

/// The product of the operands.
pub fn multi<T: Semiring>(operand1: T, operand2: T) -> (result: T)
    requires
        T::Multi::defined(operand1.model(), operand2.model()),
    ensures
        result.model() == T::Multi::apply(operand1.model(), operand2.model()),
{
    T::Multi::operation(operand1, operand2)
}

/// The additive inverse of the operand.
pub fn unary_minus<T: Ring>(operand: T) -> (result: T)
    requires
        T::Sum::invertible(operand.model()),
    ensures
        result.model() == T::Sum::inverse_of(operand.model()),
{
    T::Sum::inverse(operand)
}

/// The first operand plus the additive inverse of the second.
pub fn minus<T: Ring>(operand1: T, operand2: T) -> (result: T)
    requires
        T::Sum::invertible(operand2.model()),
        T::Sum::defined(operand1.model(), T::Sum::inverse_of(operand2.model())),
    ensures
        result.model() == T::Sum::apply(operand1.model(), T::Sum::inverse_of(operand2.model())),
{
    plus(operand1, unary_minus(operand2))
}

/// The multiplicative identity of `T`.
pub fn one<T: RingWithOne>() -> (result: T)
    ensures
        result.model() == T::Multi::identity_model(),
{
    T::Multi::identity()
}

/// The multiplicative inverse of the operand.
pub fn reciprocal<T: Field>(operand: T) -> (result: T)
    requires
        T::Multi::invertible(operand.model()),
    ensures
        result.model() == T::Multi::inverse_of(operand.model()),
{
    T::Multi::inverse(operand)
}

/// The first operand times the multiplicative inverse of the second.
pub fn div<T: Field>(operand1: T, operand2: T) -> (result: T)
    requires
        T::Multi::invertible(operand2.model()),
        T::Multi::defined(operand1.model(), T::Multi::inverse_of(operand2.model())),
    ensures
        result.model() == T::Multi::apply(operand1.model(), T::Multi::inverse_of(operand2.model())),
{
    multi(operand1, reciprocal(operand2))
}

} // verus!
