//! Matrices of integers: when their products can be computed.

use vstd::prelude::*;
use crate::implementations::finite_matrix::{
    cell_products,
    fit_for_product,
    grid_product_defined,
    product_cell,
    product_cell_defined,
};
use crate::implementations::helpers::series::{series, series_defined};
use crate::implementations::integers::Integral;
use crate::matrix::finite::{lemma_cell_position, Grid};
use crate::structures::basics::Magma;
use crate::structures::ring_like::Semiring;

verus! {

/// A series of integers that are not negative can be added up where its sum
/// can be represented, and none of its terms is greater than the sum.
pub proof fn lemma_series_of_nonnegative<T: Integral>(terms: spec_fn(int) -> int, count: nat)
    requires
        0 <= terms(0),
        forall|k: int| 0 <= k < count ==> 0 <= #[trigger] terms(k),
        T::representable(series::<T>(terms, count)),
    ensures
        series_defined::<T>(terms, count),
        forall|k: int| 0 <= k < count ==> #[trigger] terms(k) <= series::<T>(terms, count),
        terms(0) <= series::<T>(terms, count),
        forall|k: int| 0 <= k < count ==> T::representable(#[trigger] terms(k)),
    decreases count,
{
    T::representable_units();
    if count > 1 {
        let before = (count - 1) as nat;
        lemma_series_sign::<T>(terms, before);
        T::representable_between(0, series::<T>(terms, before), series::<T>(terms, count));
        lemma_series_of_nonnegative::<T>(terms, before);
        assert forall|k: int| 0 <= k < count implies T::representable(#[trigger] terms(k)) by {
            T::representable_between(0, terms(k), series::<T>(terms, count));
        }
    } else {
        assert forall|k: int| 0 <= k < count implies T::representable(#[trigger] terms(k)) by {
        }
    }
}

/// A series of integers that are not negative is not negative.
pub proof fn lemma_series_sign<T: Integral>(terms: spec_fn(int) -> int, count: nat)
    requires
        0 <= terms(0),
        forall|k: int| 0 <= k < count ==> 0 <= #[trigger] terms(k),
    ensures
        0 <= series::<T>(terms, count),
    decreases count,
{
    if count > 1 {
        lemma_series_sign::<T>(terms, (count - 1) as nat);
    }
}

/// Whether no cell of the grid is negative.
pub open spec fn nonnegative(grid: Grid<int>) -> bool {
    forall|position: int| 0 <= position < grid.cells.len() ==> 0 <= #[trigger] grid.cells[position]
}

/// The product of two matrices of integers that are not negative can be
/// computed where every cell of it can be represented.
pub proof fn lemma_product_of_nonnegative<T: Integral>(left: Grid<int>, right: Grid<int>)
    requires
        fit_for_product(left, right),
        left.height * right.width <= usize::MAX,
        nonnegative(left),
        nonnegative(right),
        forall|row: int, column: int|
            0 <= row < left.height && 0 <= column < right.width ==> T::representable(
                #[trigger] product_cell::<T>(left, right, row, column),
            ),
    ensures
        grid_product_defined::<T>(left, right),
{
    assert forall|row: int, column: int|
        0 <= row < left.height && 0 <= column < right.width implies #[trigger] product_cell_defined::<
        T,
    >(left, right, row, column) by {
        let terms = cell_products::<T>(left, right, row, column);
        assert(T::representable(product_cell::<T>(left, right, row, column)));
        assert forall|k: int| 0 <= k < left.width implies 0 <= #[trigger] terms(k) by {
            lemma_cell_position(row, k, left.height as int, left.width as int);
            lemma_cell_position(k, column, right.height as int, right.width as int);
            assert(0 <= left.at(row, k) * right.at(k, column)) by (nonlinear_arith)
                requires
                    0 <= left.at(row, k),
                    0 <= right.at(k, column),
            ;
        }
        assert(left.width > 0);
        assert(0 <= terms(0));
        lemma_series_of_nonnegative::<T>(terms, left.width);
        assert forall|k: int| 0 <= k < left.width implies #[trigger] <T as Semiring>::Multi::defined(
            left.at(row, k),
            right.at(k, column),
        ) by {
            assert(T::representable(terms(k)));
        }
    }
}

/// Whether every cell of the grid lies within `bound` of 0.
pub open spec fn bounded(grid: Grid<int>, bound: int) -> bool {
    forall|position: int|
        0 <= position < grid.cells.len() ==> -bound <= #[trigger] grid.cells[position] <= bound
}

/// A series of integers within `bound` of 0 lies within as many times the
/// bound, and can be added up where the type has values that far from 0.
pub proof fn lemma_series_of_bounded<T: Integral>(
    terms: spec_fn(int) -> int,
    count: nat,
    bound: int,
    reach: int,
)
    requires
        count >= 1,
        forall|k: int| 0 <= k < count ==> -bound <= #[trigger] terms(k) <= bound,
        count * bound <= reach,
        T::representable(reach),
        T::representable(-reach),
    ensures
        series_defined::<T>(terms, count),
        -(count * bound) <= series::<T>(terms, count) <= count * bound,
    decreases count,
{
    assert(0 <= bound) by {
        assert(-bound <= terms(0) <= bound);
    }
    if count > 1 {
        let before = (count - 1) as nat;
        assert(before * bound + bound == count * bound) by (nonlinear_arith)
            requires
                before + 1 == count,
        ;
        lemma_series_of_bounded::<T>(terms, before, bound, reach);
        assert(-bound <= terms(count - 1) <= bound);
        T::representable_between(-reach, series::<T>(terms, count), reach);
    } else {
        assert(1 * bound == bound) by (nonlinear_arith);
        assert(-bound <= terms(0) <= bound);
    }
}

/// The product of two matrices of integers within `bound` of 0 can be
/// computed in a type that has values as far from 0 as the square of the
/// bound times the number of terms of a cell.
pub proof fn lemma_product_of_bounded<T: Integral>(left: Grid<int>, right: Grid<int>, bound: int)
    requires
        fit_for_product(left, right),
        left.height * right.width <= usize::MAX,
        bounded(left, bound),
        bounded(right, bound),
        T::representable(left.width * (bound * bound)),
        T::representable(-(left.width * (bound * bound))),
    ensures
        grid_product_defined::<T>(left, right),
{
    let reach = left.width * (bound * bound);
    assert forall|row: int, column: int|
        0 <= row < left.height && 0 <= column < right.width implies #[trigger] product_cell_defined::<
        T,
    >(left, right, row, column) by {
        let terms = cell_products::<T>(left, right, row, column);
        assert(left.width > 0);
        assert(bound * bound <= reach) by (nonlinear_arith)
            requires
                reach == left.width * (bound * bound),
                left.width >= 1,
        ;
        assert forall|k: int| 0 <= k < left.width implies -(bound * bound) <= #[trigger] terms(k)
            <= bound * bound by {
            lemma_cell_position(row, k, left.height as int, left.width as int);
            lemma_cell_position(k, column, right.height as int, right.width as int);
            let a = left.at(row, k);
            let b = right.at(k, column);
            assert(-(bound * bound) <= a * b <= bound * bound) by (nonlinear_arith)
                requires
                    -bound <= a <= bound,
                    -bound <= b <= bound,
            ;
        }
        lemma_series_of_bounded::<T>(terms, left.width, bound * bound, reach);
        assert forall|k: int| 0 <= k < left.width implies #[trigger] <T as Semiring>::Multi::defined(
            left.at(row, k),
            right.at(k, column),
        ) by {
            assert(-(bound * bound) <= terms(k) <= bound * bound);
            T::representable_between(-reach, terms(k), reach);
        }
    }
}

} // verus!
