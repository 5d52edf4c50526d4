//! Powers with an exponent that is not negative, by squaring.

use vstd::arithmetic::power::pow as int_pow;
use vstd::prelude::*;
use crate::implementations::integers::SignedIntegral;
use crate::structures::basics::{duplicate, Associative, Element, Magma, WithIdentityElement};
use crate::structures::ring_like::{multi, one, RingWithOne};

verus! {

/// `base` to the power of `exponent`: the product of `exponent` factors
/// `base`, the multiplicative identity where there is none.
pub open spec fn power<T: RingWithOne>(base: T::Model, exponent: nat) -> T::Model
    decreases exponent,
{
    if exponent == 0 {
        T::Multi::identity_model()
    } else {
        T::Multi::apply(power::<T>(base, (exponent - 1) as nat), base)
    }
}

/// Whether every multiplication on the way to the power can be carried out:
/// for an even exponent the square of the power of half the exponent, for
/// an odd one the power of the exponent before it times the base.
pub open spec fn power_defined<T: RingWithOne>(base: T::Model, exponent: nat) -> bool
    decreases exponent,
{
    if exponent == 0 {
        true
    } else if exponent % 2 == 0 {
        &&& power_defined::<T>(base, exponent / 2)
        &&& T::Multi::defined(power::<T>(base, exponent / 2), power::<T>(base, exponent / 2))
    } else {
        &&& power_defined::<T>(base, (exponent - 1) as nat)
        &&& T::Multi::defined(power::<T>(base, (exponent - 1) as nat), base)
    }
}

/// Exponents add up: `base^(m + n) == base^m * base^n`.
pub proof fn lemma_power_adds<T: RingWithOne>(base: T::Model, m: nat, n: nat)
    ensures
        power::<T>(base, m + n) == T::Multi::apply(power::<T>(base, m), power::<T>(base, n)),
    decreases n,
{
    if n == 0 {
        T::Multi::identity_is_neutral(power::<T>(base, m));
    } else {
        let before = (n - 1) as nat;
        lemma_power_adds::<T>(base, m, before);
        assert(m + n - 1 == m + before);
        T::Multi::associative(power::<T>(base, m), power::<T>(base, before), base);
    }
}

/// `base` to the power of `exponent`, with a number of multiplications that
/// grows with the logarithm of the exponent.
pub fn pow<T: RingWithOne + Clone>(base: T, exponent: u64) -> (result: T)
    requires
        power_defined::<T>(base.model(), exponent as nat),
    ensures
        result.model() == power::<T>(base.model(), exponent as nat),
    decreases exponent,
{
    if exponent == 0 {
        one()
    } else if exponent % 2 == 0 {
        let ghost half = (exponent / 2) as nat;
        proof {
            lemma_power_adds::<T>(base.model(), half, half);
        }
        let t = pow(base, exponent / 2);
        multi(duplicate(&t), t)
    } else {
        multi(pow(duplicate(&base), exponent - 1), base)
    }
}

/// The distance of an integer from 0.
pub open spec fn magnitude(value: int) -> int {
    if value < 0 {
        -value
    } else {
        value
    }
}

/// In an integer type the powers are the powers of integers.
pub proof fn lemma_power_of_integers<T: SignedIntegral>(base: int, exponent: nat)
    ensures
        power::<T>(base, exponent) == int_pow(base, exponent),
    decreases exponent,
{
    reveal(int_pow);
    if exponent > 0 {
        lemma_power_of_integers::<T>(base, (exponent - 1) as nat);
        vstd::arithmetic::mul::lemma_mul_is_commutative(base, int_pow(base, (exponent - 1) as nat));
    }
}

/// No power of an integer up to an exponent is farther from 0 than the
/// power of its magnitude with that exponent, but for 1.
proof fn lemma_power_within(base: int, exponent: nat, bound: nat)
    requires
        exponent <= bound,
    ensures
        -int_pow(magnitude(base), bound) <= int_pow(base, exponent) <= int_pow(
            magnitude(base),
            bound,
        ) || -1 <= int_pow(base, exponent) <= 1,
    decreases exponent,
{
    let size = magnitude(base);
    reveal(int_pow);
    if exponent == 0 {
    } else if size == 0 {
        assert(int_pow(base, exponent) == 0 * int_pow(base, (exponent - 1) as nat));
    } else {
        // The magnitude of a power is the power of the magnitude, and that
        // grows with the exponent.
        lemma_power_magnitude(base, exponent);
        vstd::arithmetic::power::lemma_pow_increases(size as nat, exponent, bound);
    }
}

/// The magnitude of a power is the power of the magnitude.
proof fn lemma_power_magnitude(base: int, exponent: nat)
    ensures
        magnitude(int_pow(base, exponent)) == int_pow(magnitude(base), exponent),
    decreases exponent,
{
    reveal(int_pow);
    if exponent > 0 {
        let before = (exponent - 1) as nat;
        lemma_power_magnitude(base, before);
        let rest = int_pow(base, before);
        assert(magnitude(base * rest) == magnitude(base) * magnitude(rest)) by (nonlinear_arith);
    }
}

/// A power can be computed in an integer type that has values for the power
/// of the magnitude of the base and for its negation.
pub proof fn lemma_power_defined_for_integers<T: SignedIntegral>(base: int, exponent: nat)
    requires
        T::representable(int_pow(magnitude(base), exponent)),
        T::representable(-int_pow(magnitude(base), exponent)),
    ensures
        power_defined::<T>(base, exponent),
        power::<T>(base, exponent) == int_pow(base, exponent),
{
    lemma_power_of_integers::<T>(base, exponent);
    lemma_powers_defined::<T>(base, exponent, exponent);
}

/// All the powers on the way to one that can be represented can be
/// computed.
proof fn lemma_powers_defined<T: SignedIntegral>(base: int, exponent: nat, bound: nat)
    requires
        exponent <= bound,
        T::representable(int_pow(magnitude(base), bound)),
        T::representable(-int_pow(magnitude(base), bound)),
    ensures
        power_defined::<T>(base, exponent),
    decreases exponent,
{
    if exponent == 0 {
    } else {
        let high = int_pow(magnitude(base), bound);
        T::representable_units();
        lemma_power_within(base, exponent, bound);
        lemma_power_of_integers::<T>(base, exponent);
        assert(T::representable(int_pow(base, exponent))) by {
            if -1 <= int_pow(base, exponent) <= 1 {
                if int_pow(base, exponent) == -1 {
                    lemma_power_magnitude(base, exponent);
                    vstd::arithmetic::power::lemma_pow_increases(
                        magnitude(base) as nat,
                        exponent,
                        bound,
                    );
                    T::representable_between(-high, -1, high);
                }
            } else {
                T::representable_between(-high, int_pow(base, exponent), high);
            }
        }
        if exponent % 2 == 0 {
            let half = exponent / 2;
            lemma_powers_defined::<T>(base, half, bound);
            lemma_power_adds::<T>(base, half, half);
        } else {
            lemma_powers_defined::<T>(base, (exponent - 1) as nat, bound);
        }
    }
}

} // verus!
