//! Named conjunctions of the atomic capabilities.
//!
//! None of these adds behaviour or a law of its own: each holds of every tag
//! that has the capabilities it names, and serves to state the least that an
//! algorithm asks of an operation.

use vstd::prelude::*;
use crate::structures::basics::{Associative, Commutative, Element, Invertible, Magma, WithIdentityElement};

verus! {

/// A magma whose operation is commutative.
pub trait CommutativeMagma<T: Element>: Magma<T> + Commutative<T> {
}

impl<T: Element, O: Magma<T> + Commutative<T>> CommutativeMagma<T> for O {
}

/// A magma whose operation is associative.
pub trait Semigroup<T: Element>: Magma<T> + Associative<T> {
}

impl<T: Element, O: Magma<T> + Associative<T>> Semigroup<T> for O {
}

/// A magma with inverses.
pub trait Quasigroup<T: Element>: Magma<T> + Invertible<T> {
}

impl<T: Element, O: Magma<T> + Invertible<T>> Quasigroup<T> for O {
}

/// A magma with an identity element.
pub trait UnitaryMagma<T: Element>: Magma<T> + WithIdentityElement<T> {
}

impl<T: Element, O: Magma<T> + WithIdentityElement<T>> UnitaryMagma<T> for O {
}

/// A commutative semigroup.
pub trait CommutativeSemigroup<T: Element>: Magma<T> + Associative<T> + Commutative<T> {
}

impl<T: Element, O: Magma<T> + Associative<T> + Commutative<T>> CommutativeSemigroup<T> for O {
}

/// A commutative quasigroup.
pub trait CommutativeQuasigroup<T: Element>: Magma<T> + Invertible<T> + Commutative<T> {
}

impl<T: Element, O: Magma<T> + Invertible<T> + Commutative<T>> CommutativeQuasigroup<T> for O {
}

/// A commutative magma with an identity element.
pub trait CommutativeUnitaryMagma<T: Element>: Magma<T> + WithIdentityElement<T> + Commutative<T> {
}

impl<T: Element, O: Magma<T> + WithIdentityElement<T> + Commutative<T>> CommutativeUnitaryMagma<T> for O {
}

/// A quasigroup with an identity element.
pub trait Loop<T: Element>: Magma<T> + Invertible<T> + WithIdentityElement<T> {
}

impl<T: Element, O: Magma<T> + Invertible<T> + WithIdentityElement<T>> Loop<T> for O {
}

/// A semigroup with inverses.
pub trait InverseSemigroup<T: Element>: Magma<T> + Invertible<T> + Associative<T> {
}

impl<T: Element, O: Magma<T> + Invertible<T> + Associative<T>> InverseSemigroup<T> for O {
}

/// A semigroup with an identity element.
pub trait Monoid<T: Element>: Magma<T> + WithIdentityElement<T> + Associative<T> {
}

impl<T: Element, O: Magma<T> + WithIdentityElement<T> + Associative<T>> Monoid<T> for O {
}

/// A commutative loop.
pub trait CommutativeLoop<T: Element>: Magma<T> + Invertible<T> + WithIdentityElement<T> + Commutative<T> {
}

impl<T: Element, O: Magma<T> + Invertible<T> + WithIdentityElement<T> + Commutative<T>> CommutativeLoop<T> for O {
}

/// A commutative semigroup with inverses.
pub trait CommutativeInverseSemigroup<T: Element>: Magma<T> + Invertible<T> + Associative<T> + Commutative<T> {
}

impl<T: Element, O: Magma<T> + Invertible<T> + Associative<T> + Commutative<T>> CommutativeInverseSemigroup<T> for O {
}

/// A commutative monoid.
pub trait CommutativeMonoid<T: Element>: Magma<T> + WithIdentityElement<T> + Associative<T> + Commutative<T> {
}

impl<T: Element, O: Magma<T> + WithIdentityElement<T> + Associative<T> + Commutative<T>> CommutativeMonoid<T> for O {
}

/// A monoid with inverses.
pub trait Group<T: Element>: Magma<T> + WithIdentityElement<T> + Invertible<T> + Associative<T> {
}

impl<T: Element, O: Magma<T> + WithIdentityElement<T> + Invertible<T> + Associative<T>> Group<T> for O {
}

/// A commutative group.
pub trait CommutativeGroup<T: Element>: Magma<T> + WithIdentityElement<T> + Invertible<T> + Associative<T> + Commutative<T> {
}

impl<T: Element, O: Magma<T> + WithIdentityElement<T> + Invertible<T> + Associative<T> + Commutative<T>> CommutativeGroup<T> for O {
}

/// A commutative group, under its usual other name.
pub trait AbelGroup<T: Element>: CommutativeGroup<T> {
}

impl<T: Element, O: CommutativeGroup<T>> AbelGroup<T> for O {
}

} // verus!
