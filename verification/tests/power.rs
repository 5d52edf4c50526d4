use algebraic_structures::power::{signed, unsigned};
use algebraic_structures::structures::basics::{
    Associative, Commutative, Element, Invertible, Magma, WithIdentityElement,
};
use algebraic_structures::structures::ring_like::{div, minus, reciprocal, unary_minus, Semiring};

/// A floating-point number as an element of a field, for the sake of the
/// signed powers. Nothing is proved of it: what the library asks for proof
/// is given here as ordinary functions that nothing calls.
#[derive(Clone, Copy, Debug, PartialEq)]
struct Real(f64);

struct RealSum;

struct RealMulti;

impl Element for Real {
    type Model = ();

    fn model(&self) {}

    fn clone_keeps_model(_original: Real, _copy: Real) {}
}

impl Magma<Real> for RealSum {
    fn defined(_a: (), _b: ()) -> bool {
        true
    }

    fn apply(_a: (), _b: ()) {}

    fn operation(operand1: Real, operand2: Real) -> Real {
        Real(operand1.0 + operand2.0)
    }
}

impl Associative<Real> for RealSum {
    fn associative(_a: (), _b: (), _c: ()) {}
}

impl Commutative<Real> for RealSum {
    fn commutative(_a: (), _b: ()) {}
}

impl WithIdentityElement<Real> for RealSum {
    fn identity_model() {}

    fn identity() -> Real {
        Real(0.0)
    }

    fn identity_is_neutral(_a: ()) {}
}

impl Invertible<Real> for RealSum {
    fn invertible(_a: ()) -> bool {
        true
    }

    fn inverse_of(_a: ()) {}

    fn inverse(operand: Real) -> Real {
        Real(-operand.0)
    }

    fn inverse_absorbs(_a: ()) {}
}

impl Magma<Real> for RealMulti {
    fn defined(_a: (), _b: ()) -> bool {
        true
    }

    fn apply(_a: (), _b: ()) {}

    fn operation(operand1: Real, operand2: Real) -> Real {
        Real(operand1.0 * operand2.0)
    }
}

impl Associative<Real> for RealMulti {
    fn associative(_a: (), _b: (), _c: ()) {}
}

impl Commutative<Real> for RealMulti {
    fn commutative(_a: (), _b: ()) {}
}

impl WithIdentityElement<Real> for RealMulti {
    fn identity_model() {}

    fn identity() -> Real {
        Real(1.0)
    }

    fn identity_is_neutral(_a: ()) {}
}

impl Invertible<Real> for RealMulti {
    fn invertible(_a: ()) -> bool {
        true
    }

    fn inverse_of(_a: ()) {}

    fn inverse(operand: Real) -> Real {
        Real(1.0 / operand.0)
    }

    fn inverse_absorbs(_a: ()) {}
}

impl Semiring for Real {
    type Sum = RealSum;
    type Multi = RealMulti;
}

#[test]
fn unsigned() {
    assert_eq!(unsigned::pow(2, 10), 1024);
    assert_eq!(unsigned::pow(2, 0), 1);
    assert_eq!(signed::pow(Real(2.0), 10), Real(1024.0));
    assert_eq!(signed::pow(Real(2.0), 0), Real(1.0));
    assert_eq!(signed::pow(Real(2.0), -1), Real(0.5));
}

#[test]
fn negative_exponents_take_the_reciprocal() {
    assert_eq!(signed::pow(Real(2.0), -3), Real(0.125));
    assert_eq!(signed::pow(Real(4.0), -1), Real(0.25));
    assert_eq!(signed::pow(Real(-2.0), 3), Real(-8.0));
    assert_eq!(signed::pow(Real(10.0), 2), Real(100.0));
}

#[test]
fn the_least_exponent_is_halved_before_it_is_negated() {
    assert_eq!(signed::pow(Real(1.0), i64::MIN), Real(1.0));
    assert_eq!(signed::pow(Real(-1.0), i64::MIN), Real(1.0));
    assert_eq!(signed::pow(Real(2.0), i64::MIN), Real(0.0));
    assert_eq!(signed::pow(Real(1.0), i64::MIN + 1), Real(1.0));
    assert_eq!(signed::pow(Real(-1.0), i64::MIN + 1), Real(-1.0));
    assert_eq!(signed::pow(Real(1.0), i64::MAX), Real(1.0));
}

#[test]
fn a_field_divides() {
    assert_eq!(reciprocal(Real(2.0)), Real(0.5));
    assert_eq!(reciprocal(Real(-0.25)), Real(-4.0));
    assert_eq!(div(Real(1.0), Real(4.0)), Real(0.25));
    assert_eq!(div(Real(9.0), Real(-3.0)), Real(-3.0));
    assert_eq!(minus(Real(1.5), Real(4.0)), Real(-2.5));
    assert_eq!(unary_minus(Real(1.5)), Real(-1.5));
}
