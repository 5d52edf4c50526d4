//! Powers with an exponent of either sign, over a field.

use vstd::prelude::*;
use crate::power::unsigned::{power, power_defined};
use crate::structures::basics::{Element, Invertible, Magma};
use crate::structures::ring_like::{reciprocal, Field};

verus! {

/// `base` to the power of `exponent`. For a negative exponent it is the
/// reciprocal of the power of its absolute value. The least exponent has no
/// absolute value among its own kind: its power is the square of the power
/// of its half.
pub open spec fn signed_power<T: Field>(base: T::Model, exponent: i64) -> T::Model {
    if exponent == i64::MIN {
        power::<T>(T::Multi::inverse_of(power::<T>(base, (-(i64::MIN / 2)) as nat)), 2)
    } else if exponent < 0 {
        T::Multi::inverse_of(power::<T>(base, (-exponent) as nat))
    } else {
        power::<T>(base, exponent as nat)
    }
}

/// Whether every multiplication and the reciprocal on the way to the power
/// can be carried out.
pub open spec fn signed_power_defined<T: Field>(base: T::Model, exponent: i64) -> bool {
    if exponent == i64::MIN {
        let half = (-(i64::MIN / 2)) as nat;
        &&& power_defined::<T>(base, half)
        &&& T::Multi::invertible(power::<T>(base, half))
        &&& power_defined::<T>(T::Multi::inverse_of(power::<T>(base, half)), 2)
    } else if exponent < 0 {
        &&& power_defined::<T>(base, (-exponent) as nat)
        &&& T::Multi::invertible(power::<T>(base, (-exponent) as nat))
    } else {
        power_defined::<T>(base, exponent as nat)
    }
}

/// `base` to the power of `exponent`.
pub fn pow<T: Field + Clone>(base: T, exponent: i64) -> (result: T)
    requires
        signed_power_defined::<T>(base.model(), exponent),
    ensures
        result.model() == signed_power::<T>(base.model(), exponent),
    decreases
            if exponent == i64::MIN {
                2int
            } else if exponent < 0 {
                1int
            } else {
                0int
            },
{
    if exponent == i64::MIN {
        crate::power::unsigned::pow(pow(base, exponent / 2), 2)
    } else if exponent < 0 {
        reciprocal(pow(base, -exponent))
    } else {
        crate::power::unsigned::pow(base, exponent as u64)
    }
}

} // verus!
