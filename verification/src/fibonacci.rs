//! Fibonacci numbers in any ring with one, by a power of a matrix.

use vstd::prelude::*;
use crate::implementations::finite_matrix::{
    cell_products,
    grid_product,
    lemma_grid_product_cells,
    product_cell,
};
use crate::implementations::helpers::series::series;
use crate::implementations::integer_matrix::{lemma_product_of_nonnegative, nonnegative};
use crate::implementations::integers::SignedIntegral;
use crate::implementations::matrix::MatrixMul;
use crate::matrix::finite::{lemma_grids_equal_by_cells, position_of, FiniteMatrix, Grid, Shape};
use crate::matrix::{Matrix, MatrixValue};
use crate::power::unsigned::{lemma_power_adds, pow, power, power_defined};
use crate::structures::basics::{Associative, Commutative, Element, Magma, WithIdentityElement};
use crate::structures::ring_like::{multi, one, zero, Distributive, RingWithOne};

verus! {

/// The Fibonacci number of the given index in `T`: the additive identity at
/// 0, the multiplicative identity at 1, and from there on the sum of the
/// two before.
pub open spec fn fibonacci_number<T: RingWithOne>(index: nat) -> T::Model
    decreases index,
{
    if index == 0 {
        T::Sum::identity_model()
    } else if index == 1 {
        T::Multi::identity_model()
    } else {
        T::Sum::apply(
            fibonacci_number::<T>((index - 1) as nat),
            fibonacci_number::<T>((index - 2) as nat),
        )
    }
}

/// Each Fibonacci number and the one before it add up to the next.
pub proof fn lemma_fibonacci_recurrence<T: RingWithOne>(index: nat)
    ensures
        T::Sum::apply(fibonacci_number::<T>(index + 1), fibonacci_number::<T>(index))
            == fibonacci_number::<T>(index + 2),
{
}

/// The row `(0, 1)` that the powers of the step matrix are applied to.
pub open spec fn start_row<T: RingWithOne>() -> Grid<T::Model> {
    Grid { height: 1, width: 2, cells: seq![T::Sum::identity_model(), T::Multi::identity_model()] }
}

/// The matrix whose powers hold the Fibonacci numbers: rows `(0, 1)` and
/// `(1, 1)`.
pub open spec fn step_matrix<T: RingWithOne>() -> Grid<T::Model> {
    Grid {
        height: 2,
        width: 2,
        cells: seq![
            T::Sum::identity_model(),
            T::Multi::identity_model(),
            T::Multi::identity_model(),
            T::Multi::identity_model(),
        ],
    }
}

/// Whether the Fibonacci number of the given index can be computed in `T`:
/// the power of the step matrix and its product with the start row can.
pub open spec fn fibonacci_defined<T: RingWithOne + Distributive>(index: nat) -> bool {
    &&& power_defined::<Matrix<T>>(MatrixValue::Finite(step_matrix::<T>()), index)
    &&& MatrixMul::<T>::defined(
        MatrixValue::Finite(start_row::<T>()),
        power::<Matrix<T>>(MatrixValue::Finite(step_matrix::<T>()), index),
    )
}

/// Two rows of two cells each.
pub open spec fn two_by_two<S>(a: S, b: S, c: S, d: S) -> Grid<S> {
    Grid { height: 2, width: 2, cells: seq![a, b, c, d] }
}

/// A product with the step matrix moves each row one Fibonacci number on.
proof fn lemma_step<T: RingWithOne + Distributive>(a: T::Model, b: T::Model, c: T::Model)
    ensures
        grid_product::<T>(two_by_two(a, b, b, c), step_matrix::<T>()) == two_by_two(
            b,
            T::Sum::apply(a, b),
            c,
            T::Sum::apply(b, c),
        ),
{
    let zero = T::Sum::identity_model();
    let one = T::Multi::identity_model();
    let left = two_by_two(a, b, b, c);
    let step = step_matrix::<T>();
    let product = grid_product::<T>(left, step);
    let expected = two_by_two(b, T::Sum::apply(a, b), c, T::Sum::apply(b, c));
    lemma_grid_product_cells::<T>(left, step);
    T::zero_annihilates(a);
    T::zero_annihilates(b);
    T::Multi::identity_is_neutral(a);
    T::Multi::identity_is_neutral(b);
    T::Multi::identity_is_neutral(c);
    T::Sum::identity_is_neutral(b);
    T::Sum::identity_is_neutral(c);
    assert forall|row: int, column: int|
        0 <= row < 2 && 0 <= column < 2 implies #[trigger] product.at(row, column) == expected.at(
        row,
        column,
    ) by {
        let terms = cell_products::<T>(left, step, row, column);
        assert(product.at(row, column) == series::<T>(terms, 2));
        assert(series::<T>(terms, 2) == T::Sum::apply(series::<T>(terms, 1), terms(1)));
        assert(series::<T>(terms, 1) == terms(0));
        assert(position_of(0, 0, 2) == 0 && position_of(0, 1, 2) == 1 && position_of(1, 0, 2) == 2
            && position_of(1, 1, 2) == 3);
    }
    lemma_grids_equal_by_cells(product, expected);
}

/// The powers of the step matrix hold three Fibonacci numbers in a row.
proof fn lemma_step_powers<T: RingWithOne + Distributive>(index: nat)
    requires
        index >= 1,
    ensures
        power::<Matrix<T>>(MatrixValue::Finite(step_matrix::<T>()), index) == MatrixValue::Finite(
            two_by_two(
                fibonacci_number::<T>((index - 1) as nat),
                fibonacci_number::<T>(index),
                fibonacci_number::<T>(index),
                fibonacci_number::<T>(index + 1),
            ),
        ),
    decreases index,
{
    let step = MatrixValue::Finite(step_matrix::<T>());
    if index == 1 {
        assert(power::<Matrix<T>>(step, 0) == MatrixMul::<T>::identity_model());
        MatrixMul::<T>::identity_is_neutral(step);
        T::Sum::identity_is_neutral(T::Multi::identity_model());
        assert(step_matrix::<T>() =~= two_by_two(
            fibonacci_number::<T>(0),
            fibonacci_number::<T>(1),
            fibonacci_number::<T>(1),
            fibonacci_number::<T>(2),
        ));
    } else {
        let before = (index - 1) as nat;
        lemma_step_powers::<T>(before);
        let a = fibonacci_number::<T>((before - 1) as nat);
        let b = fibonacci_number::<T>(before);
        let c = fibonacci_number::<T>(before + 1);
        lemma_step::<T>(a, b, c);
        T::Sum::commutative(a, b);
        T::Sum::commutative(b, c);
    }
}

/// The start row times a matrix of two rows is its second row.
proof fn lemma_start_row_picks<T: RingWithOne + Distributive>(
    a: T::Model,
    b: T::Model,
    c: T::Model,
    d: T::Model,
)
    ensures
        grid_product::<T>(start_row::<T>(), two_by_two(a, b, c, d)).at(0, 0) == c,
{
    let row = start_row::<T>();
    let matrix = two_by_two(a, b, c, d);
    lemma_grid_product_cells::<T>(row, matrix);
    let terms = cell_products::<T>(row, matrix, 0, 0);
    assert(grid_product::<T>(row, matrix).at(0, 0) == series::<T>(terms, 2));
    assert(series::<T>(terms, 2) == T::Sum::apply(series::<T>(terms, 1), terms(1)));
    assert(series::<T>(terms, 1) == terms(0));
    assert(position_of(0, 0, 2) == 0 && position_of(0, 1, 2) == 1 && position_of(1, 0, 2) == 2);
    T::zero_annihilates(a);
    T::Multi::identity_is_neutral(c);
    T::Sum::identity_is_neutral(c);
}

/// The Fibonacci number of the given index, counted from 0, with a number
/// of operations that grows with the logarithm of the index.
pub fn fibonacci<T: RingWithOne + Distributive + Clone>(index: u64) -> (number: T)
    requires
        fibonacci_defined::<T>(index as nat),
    ensures
        number.model() == fibonacci_number::<T>(index as nat),
{
    let mut base_cells: Vec<T> = Vec::new();
    base_cells.push(zero());
    base_cells.push(one());
    let base: Matrix<T> = Matrix::Finite(
        FiniteMatrix::from_iter(Shape { height: 1, width: 2 }, base_cells.into_iter()),
    );
    let mut step_cells: Vec<T> = Vec::new();
    step_cells.push(zero());
    step_cells.push(one());
    step_cells.push(one());
    step_cells.push(one());
    let step_shape = Shape { height: 2, width: 2 };
    assert(step_shape.height * step_shape.width == 4) by (nonlinear_arith)
        requires
            step_shape.height == 2,
            step_shape.width == 2,
    ;
    let step: Matrix<T> = Matrix::Finite(FiniteMatrix::from_iter(step_shape, step_cells.into_iter()));
    proof {
        assert(base.model() =~= MatrixValue::Finite(start_row::<T>()));
        assert(step.model() =~= MatrixValue::Finite(step_matrix::<T>()));
    }
    let multiplier: Matrix<T> = pow(step, index);
    let matrix = multi(base, multiplier);
    proof {
        if index == 0 {
            T::Multi::identity_is_neutral(T::Sum::identity_model());
        } else {
            lemma_step_powers::<T>(index as nat);
            lemma_start_row_picks::<T>(
                fibonacci_number::<T>((index - 1) as nat),
                fibonacci_number::<T>(index as nat),
                fibonacci_number::<T>(index as nat),
                fibonacci_number::<T>((index + 1) as nat),
            );
        }
    }
    matrix.get((0, 0))
}

/// The Fibonacci numbers: 0, 1, and from there on the sum of the two
/// before.
pub open spec fn fib(index: nat) -> nat
    decreases index,
{
    if index == 0 {
        0
    } else if index == 1 {
        1
    } else {
        fib((index - 1) as nat) + fib((index - 2) as nat)
    }
}

/// The Fibonacci numbers do not decrease.
pub proof fn lemma_fib_increases(earlier: nat, later: nat)
    requires
        earlier <= later,
    ensures
        fib(earlier) <= fib(later),
    decreases later,
{
    if earlier < later {
        lemma_fib_increases(earlier, (later - 1) as nat);
        if later >= 2 {
            assert(fib(later) == fib((later - 1) as nat) + fib((later - 2) as nat));
        }
    }
}

/// In an integer type the Fibonacci numbers are the Fibonacci numbers.
pub proof fn lemma_fibonacci_of_integers<T: SignedIntegral>(index: nat)
    ensures
        fibonacci_number::<T>(index) == fib(index),
    decreases index,
{
    if index >= 2 {
        lemma_fibonacci_of_integers::<T>((index - 1) as nat);
        lemma_fibonacci_of_integers::<T>((index - 2) as nat);
    }
}

/// The power of the step matrix for an index from 1 on, as a grid of
/// integers.
pub open spec fn step_power(index: nat) -> Grid<int> {
    two_by_two(
        fib((index - 1) as nat) as int,
        fib(index) as int,
        fib(index) as int,
        fib(index + 1) as int,
    )
}

/// The powers of the step matrix over an integer type.
proof fn lemma_step_powers_of_integers<T: SignedIntegral>(index: nat)
    requires
        index >= 1,
    ensures
        power::<Matrix<T>>(MatrixValue::Finite(step_matrix::<T>()), index) == MatrixValue::Finite(
            step_power(index),
        ),
        step_power(index).well_formed(),
        nonnegative(step_power(index)),
{
    lemma_step_powers::<T>(index);
    lemma_fibonacci_of_integers::<T>((index - 1) as nat);
    lemma_fibonacci_of_integers::<T>(index);
    lemma_fibonacci_of_integers::<T>(index + 1);
    assert(step_power(index).cells.len() == 4);
    assert(2 * 2 == 4) by (nonlinear_arith);
}

/// Every cell of a power of the step matrix is a Fibonacci number up to
/// the one after the index.
proof fn lemma_step_power_cells<T: SignedIntegral>(index: nat, bound: nat, row: int, column: int)
    requires
        index >= 1,
        index <= bound,
        T::representable(fib(bound + 1) as int),
        0 <= row < 2,
        0 <= column < 2,
    ensures
        T::representable(step_power(index).at(row, column)),
{
    assert(position_of(0, 0, 2) == 0 && position_of(0, 1, 2) == 1 && position_of(1, 0, 2) == 2
        && position_of(1, 1, 2) == 3);
    lemma_fib_increases((index - 1) as nat, bound + 1);
    lemma_fib_increases(index, bound + 1);
    lemma_fib_increases(index + 1, bound + 1);
    T::representable_units();
    T::representable_between(0, step_power(index).at(row, column), fib(bound + 1) as int);
}

/// The power of the step matrix can be computed in an integer type that
/// has a value for the Fibonacci number after the index.
proof fn lemma_step_power_defined<T: SignedIntegral>(index: nat)
    requires
        T::representable(fib(index + 1) as int),
    ensures
        power_defined::<Matrix<T>>(MatrixValue::Finite(step_matrix::<T>()), index),
    decreases index,
{
    let step = MatrixValue::Finite(step_matrix::<T>());
    T::representable_units();
    if index == 0 {
    } else if index % 2 == 0 {
        let half = index / 2;
        lemma_fib_increases(half + 1, index + 1);
        T::representable_between(0, fib(half + 1) as int, fib(index + 1) as int);
        lemma_step_power_defined::<T>(half);
        lemma_step_powers_of_integers::<T>(half);
        lemma_step_powers_of_integers::<T>(index);
        lemma_power_adds::<Matrix<T>>(step, half, half);
        let factor = step_power(half);
        lemma_grid_product_cells::<T>(factor, factor);
        assert(grid_product::<T>(factor, factor) == step_power(index));
        assert forall|row: int, column: int|
            0 <= row < 2 && 0 <= column < 2 implies T::representable(
            #[trigger] product_cell::<T>(factor, factor, row, column),
        ) by {
            lemma_step_power_cells::<T>(index, index, row, column);
            assert(grid_product::<T>(factor, factor).at(row, column) == product_cell::<T>(
                factor,
                factor,
                row,
                column,
            ));
        }
        lemma_product_of_nonnegative::<T>(factor, factor);
    } else {
        let before = (index - 1) as nat;
        lemma_fib_increases(before + 1, index + 1);
        T::representable_between(0, fib(before + 1) as int, fib(index + 1) as int);
        lemma_step_power_defined::<T>(before);
        if before == 0 {
            assert(power::<Matrix<T>>(step, 0) == MatrixValue::<int>::Diagonal(1));
        } else {
            lemma_step_powers_of_integers::<T>(before);
            lemma_step_powers_of_integers::<T>(index);
            let factor = step_power(before);
            let step_grid = step_matrix::<T>();
            lemma_grid_product_cells::<T>(factor, step_grid);
            assert(grid_product::<T>(factor, step_grid) == step_power(index));
            assert forall|row: int, column: int|
                0 <= row < 2 && 0 <= column < 2 implies T::representable(
                #[trigger] product_cell::<T>(factor, step_grid, row, column),
            ) by {
                lemma_step_power_cells::<T>(index, index, row, column);
                assert(grid_product::<T>(factor, step_grid).at(row, column) == product_cell::<T>(
                    factor,
                    step_grid,
                    row,
                    column,
                ));
            }
            lemma_product_of_nonnegative::<T>(factor, step_grid);
        }
    }
}

/// A Fibonacci number can be computed in an integer type that has a value
/// for the Fibonacci number after it.
pub proof fn lemma_fibonacci_defined_for_integers<T: SignedIntegral>(index: nat)
    requires
        T::representable(fib(index + 1) as int),
    ensures
        fibonacci_defined::<T>(index),
        fibonacci_number::<T>(index) == fib(index),
{
    lemma_fibonacci_of_integers::<T>(index);
    lemma_step_power_defined::<T>(index);
    T::representable_units();
    let row_grid = start_row::<T>();
    if index == 0 {
        assert(power::<Matrix<T>>(MatrixValue::Finite(step_matrix::<T>()), 0)
            == MatrixValue::<int>::Diagonal(1));
    } else {
        lemma_step_powers_of_integers::<T>(index);
        let factor = step_power(index);
        lemma_grid_product_cells::<T>(row_grid, factor);
        assert forall|row: int, column: int|
            0 <= row < 1 && 0 <= column < 2 implies T::representable(
            #[trigger] product_cell::<T>(row_grid, factor, row, column),
        ) by {
            let terms = cell_products::<T>(row_grid, factor, row, column);
            assert(series::<T>(terms, 2) == series::<T>(terms, 1) + terms(1));
            assert(series::<T>(terms, 1) == terms(0));
            assert(position_of(0, 0, 2) == 0 && position_of(0, 1, 2) == 1 && position_of(1, 0, 2)
                == 2 && position_of(1, 1, 2) == 3);
            assert(row_grid.at(0, 0) == 0 && row_grid.at(0, 1) == 1);
            assert(terms(0) == 0 * factor.at(0, column));
            assert(terms(1) == 1 * factor.at(1, column));
            lemma_step_power_cells::<T>(index, index, 1, column);
            assert(product_cell::<T>(row_grid, factor, row, column) == factor.at(1, column));
        }
        lemma_product_of_nonnegative::<T>(row_grid, factor);
    }
}

} // verus!
