//! Atomic capabilities of an operation tag.
//!
//! A tag is a stateless marker type that names one binary operation on a
//! value type. A value type can thereby carry several operations, each with
//! its own set of capabilities.

use vstd::prelude::*;

verus! {

/// A value type whose values denote elements of a mathematical carrier.
///
/// The carrier is `Model`. Contracts of the algebra are stated over models,
/// never over the representation.
pub trait Element: Sized + Clone {
    type Model;

    /// The mathematical value that `self` denotes.
    spec fn model(&self) -> Self::Model;

    /// A clone denotes the same value as its original.
    proof fn clone_keeps_model(original: Self, copy: Self)
        requires
            cloned(original, copy),
        ensures
            copy.model() == original.model(),
    ;
}

/// A clone of `original`, known to denote the same value.
pub fn duplicate<T: Element>(original: &T) -> (copy: T)
    ensures
        copy.model() == original.model(),
{
    let copy = original.clone();
    proof {
        T::clone_keeps_model(*original, copy);
    }
    copy
}

/// A closed binary operation on `T`.
///
/// `apply` is the operation on models and is total. `defined` says on which
/// operands the executable `operation` can produce the result: that they fit
/// together and that the result can be represented.
pub trait Magma<T: Element> {
    spec fn defined(a: T::Model, b: T::Model) -> bool;

    spec fn apply(a: T::Model, b: T::Model) -> T::Model;

    fn operation(operand1: T, operand2: T) -> (result: T)
        requires
            Self::defined(operand1.model(), operand2.model()),
        ensures
            result.model() == Self::apply(operand1.model(), operand2.model()),
    ;
}

/// The operation may be regrouped: `(a . b) . c == a . (b . c)`.
pub trait Associative<T: Element>: Magma<T> {
    proof fn associative(a: T::Model, b: T::Model, c: T::Model)
        ensures
            Self::apply(Self::apply(a, b), c) == Self::apply(a, Self::apply(b, c)),
    ;
}

/// The operands may be swapped: `a . b == b . a`.
pub trait Commutative<T: Element>: Magma<T> {
    proof fn commutative(a: T::Model, b: T::Model)
        ensures
            Self::apply(a, b) == Self::apply(b, a),
    ;
}

/// Every element has an inverse under the operation.
///
/// `invertible` says for which elements the executable `inverse` can produce
/// it; what happens outside is not specified. The law that holds of every
/// structure with this capability is that an inverse undoes its element
/// around that element: `(a . inverse(a)) . a == a`. In a group this makes
/// it the inverse of the group. It is not asked that `a . inverse(a)` be the
/// identity: a finite matrix and its negation add up to a finite matrix of
/// zeros, not to the zero of all matrices.
pub trait Invertible<T: Element>: Magma<T> {
    spec fn invertible(a: T::Model) -> bool;

    spec fn inverse_of(a: T::Model) -> T::Model;

    fn inverse(operand: T) -> (result: T)
        requires
            Self::invertible(operand.model()),
        ensures
            result.model() == Self::inverse_of(operand.model()),
    ;

    proof fn inverse_absorbs(a: T::Model)
        ensures
            Self::apply(Self::apply(a, Self::inverse_of(a)), a) == a,
    ;
}

/// The operation has a two-sided identity element.
pub trait WithIdentityElement<T: Element>: Magma<T> {
    spec fn identity_model() -> T::Model;

    fn identity() -> (result: T)
        ensures
            result.model() == Self::identity_model(),
    ;

    proof fn identity_is_neutral(a: T::Model)
        ensures
            Self::apply(Self::identity_model(), a) == a,
            Self::apply(a, Self::identity_model()) == a,
    ;
}

} // verus!
