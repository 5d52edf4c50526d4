//! Sums of several terms of a semiring.
//!
//! A series has at least one term and is added up from the left, as a
//! product of matrices computes each of its cells.

use vstd::prelude::*;
use crate::structures::basics::{Associative, Commutative, Magma, WithIdentityElement};
use crate::structures::ring_like::{Distributive, Semiring};

verus! {

/// The sum `terms(0) + terms(1) + ... + terms(count - 1)`. With no term
/// asked for it is `terms(0)` all the same.
pub open spec fn series<T: Semiring>(terms: spec_fn(int) -> T::Model, count: nat) -> T::Model
    decreases count,
{
    if count <= 1 {
        terms(0)
    } else {
        T::Sum::apply(series::<T>(terms, (count - 1) as nat), terms(count - 1))
    }
}

/// Whether every addition of the series can be carried out.
pub open spec fn series_defined<T: Semiring>(terms: spec_fn(int) -> T::Model, count: nat) -> bool
    decreases count,
{
    if count <= 1 {
        true
    } else {
        &&& series_defined::<T>(terms, (count - 1) as nat)
        &&& T::Sum::defined(series::<T>(terms, (count - 1) as nat), terms(count - 1))
    }
}

/// Where a series can be added up, so can each of its beginnings.
pub proof fn lemma_series_defined_before<T: Semiring>(
    terms: spec_fn(int) -> T::Model,
    shorter: nat,
    count: nat,
)
    requires
        series_defined::<T>(terms, count),
        shorter <= count,
    ensures
        series_defined::<T>(terms, shorter),
    decreases count,
{
    if shorter < count && count > 1 {
        lemma_series_defined_before::<T>(terms, shorter, (count - 1) as nat);
    }
}

/// Series whose terms agree are equal.
pub proof fn lemma_series_of_equal_terms<T: Semiring>(
    left: spec_fn(int) -> T::Model,
    right: spec_fn(int) -> T::Model,
    count: nat,
)
    requires
        left(0) == right(0),
        forall|k: int| 0 <= k < count ==> #[trigger] left(k) == right(k),
    ensures
        series::<T>(left, count) == series::<T>(right, count),
    decreases count,
{
    if count > 1 {
        lemma_series_of_equal_terms::<T>(left, right, (count - 1) as nat);
    }
}

/// The series of the sums of two terms is the sum of the two series.
pub proof fn lemma_series_of_sums<T: Semiring>(
    left: spec_fn(int) -> T::Model,
    right: spec_fn(int) -> T::Model,
    count: nat,
)
    ensures
        series::<T>(|k: int| T::Sum::apply(left(k), right(k)), count) == T::Sum::apply(
            series::<T>(left, count),
            series::<T>(right, count),
        ),
    decreases count,
{
    let both = |k: int| T::Sum::apply(left(k), right(k));
    if count > 1 {
        let before = (count - 1) as nat;
        lemma_series_of_sums::<T>(left, right, before);
        let l = series::<T>(left, before);
        let r = series::<T>(right, before);
        let x = left(count - 1);
        let y = right(count - 1);
        // (l + r) + (x + y) == (l + x) + (r + y)
        T::Sum::associative(T::Sum::apply(l, r), x, y);
        T::Sum::associative(l, r, x);
        T::Sum::commutative(r, x);
        T::Sum::associative(l, x, r);
        T::Sum::associative(T::Sum::apply(l, x), r, y);
    }
}

/// A factor on the left goes into every term.
pub proof fn lemma_series_times_left<T: Distributive>(
    factor: T::Model,
    terms: spec_fn(int) -> T::Model,
    count: nat,
)
    ensures
        T::Multi::apply(factor, series::<T>(terms, count)) == series::<T>(
            |k: int| T::Multi::apply(factor, terms(k)),
            count,
        ),
    decreases count,
{
    if count > 1 {
        let before = (count - 1) as nat;
        lemma_series_times_left::<T>(factor, terms, before);
        T::distributes_from_left(factor, series::<T>(terms, before), terms(count - 1));
    }
}

/// A factor on the right goes into every term.
pub proof fn lemma_series_times_right<T: Distributive>(
    terms: spec_fn(int) -> T::Model,
    factor: T::Model,
    count: nat,
)
    ensures
        T::Multi::apply(series::<T>(terms, count), factor) == series::<T>(
            |k: int| T::Multi::apply(terms(k), factor),
            count,
        ),
    decreases count,
{
    if count > 1 {
        let before = (count - 1) as nat;
        lemma_series_times_right::<T>(terms, factor, before);
        T::distributes_from_right(series::<T>(terms, before), terms(count - 1), factor);
    }
}

/// A series of series may be added up in either order.
pub proof fn lemma_series_exchange<T: Semiring>(
    terms: spec_fn(int, int) -> T::Model,
    outer: nat,
    inner: nat,
)
    ensures
        series::<T>(|k: int| series::<T>(|l: int| terms(k, l), inner), outer) == series::<T>(
            |l: int| series::<T>(|k: int| terms(k, l), outer),
            inner,
        ),
    decreases outer,
{
    let by_rows = |k: int| series::<T>(|l: int| terms(k, l), inner);
    let by_columns = |l: int| series::<T>(|k: int| terms(k, l), outer);
    if outer <= 1 {
        let first_row = |l: int| terms(0, l);
        assert(by_rows(0) == series::<T>(first_row, inner));
        assert forall|l: int| 0 <= l < inner || l == 0 implies #[trigger] by_columns(l)
            == first_row(l) by {
        }
        lemma_series_of_equal_terms::<T>(by_columns, first_row, inner);
    } else {
        let before = (outer - 1) as nat;
        lemma_series_exchange::<T>(terms, before, inner);
        let columns_before = |l: int| series::<T>(|k: int| terms(k, l), before);
        let last_row = |l: int| terms(outer - 1, l);
        let split = |l: int| T::Sum::apply(columns_before(l), last_row(l));
        assert forall|l: int| 0 <= l < inner || l == 0 implies #[trigger] by_columns(l) == split(
            l,
        ) by {
        }
        lemma_series_of_equal_terms::<T>(by_columns, split, inner);
        lemma_series_of_sums::<T>(columns_before, last_row, inner);
        assert(by_rows(outer - 1) == series::<T>(last_row, inner));
    }
}

/// A series with a single term that is not the additive identity is that
/// term.
pub proof fn lemma_series_of_one_term<T: Semiring>(
    terms: spec_fn(int) -> T::Model,
    count: nat,
    place: int,
)
    requires
        0 <= place < count,
        forall|k: int|
            0 <= k < count && k != place ==> #[trigger] terms(k) == T::Sum::identity_model(),
    ensures
        series::<T>(terms, count) == terms(place),
    decreases count,
{
    if count > 1 {
        let before = (count - 1) as nat;
        if place == count - 1 {
            lemma_series_of_zeros::<T>(terms, before);
            T::Sum::identity_is_neutral(terms(place));
        } else {
            lemma_series_of_one_term::<T>(terms, before, place);
            T::Sum::identity_is_neutral(terms(place));
        }
    }
}

/// A series whose terms are all the additive identity is the additive
/// identity.
pub proof fn lemma_series_of_zeros<T: Semiring>(terms: spec_fn(int) -> T::Model, count: nat)
    requires
        count >= 1,
        forall|k: int| 0 <= k < count ==> #[trigger] terms(k) == T::Sum::identity_model(),
    ensures
        series::<T>(terms, count) == T::Sum::identity_model(),
    decreases count,
{
    if count > 1 {
        lemma_series_of_zeros::<T>(terms, (count - 1) as nat);
        T::Sum::identity_is_neutral(T::Sum::identity_model());
    }
}

} // verus!
