//! Addition and multiplication of matrices, and the matrix type as a
//! semiring of its own.
//!
//! An unbounded diagonal matrix takes the shape of the finite matrix it
//! meets: added to one, its scalar goes onto the main diagonal; multiplied
//! with one, its scalar scales every cell.

use std::marker::PhantomData;
use vstd::prelude::*;
use crate::implementations::finite_matrix::{
    grid_difference,
    grid_difference_defined,
    cell_products,
    fit_for_product,
    lemma_grid_product_cells,
    lemma_grid_product_unfit,
    grid_product,
    grid_product_defined,
    grid_sum,
    grid_sum_defined,
    FiniteMatrixMul,
    FiniteMatrixSum,
};
use crate::implementations::helpers::series::{
    lemma_series_of_one_term,
    lemma_series_of_equal_terms,
    lemma_series_times_left,
    lemma_series_times_right,
    series,
};
use crate::matrix::finite::{
    lemma_cell_of_position,
    lemma_cell_position,
    lemma_grids_equal_by_cells,
    lemma_position_cell,
    position_of,
    FiniteMatrix,
    Grid,
};
use crate::matrix::{Matrix, MatrixValue};
use crate::structures::basics::{
    duplicate,
    Associative,
    Commutative,
    Element,
    Invertible,
    Magma,
    WithIdentityElement,
};
use crate::structures::ring_like::{multi, plus, zero, Distributive, Semiring};

verus! {

/// Whether a place among cells held in rows of `width` is one of the main
/// diagonal.
pub open spec fn on_diagonal(position: int, width: nat) -> bool {
    width > 0 && position / (width as int) == position % (width as int)
}

/// An unbounded diagonal matrix plus a grid: the scalar is added, from the
/// left, to the cells of the main diagonal.
pub open spec fn diagonal_plus_grid<T: Semiring>(scalar: T::Model, grid: Grid<T::Model>) -> Grid<
    T::Model,
> {
    Grid {
        height: grid.height,
        width: grid.width,
        cells: Seq::new(
            grid.cells.len(),
            |position: int|
                if on_diagonal(position, grid.width) {
                    T::Sum::apply(scalar, grid.cells[position])
                } else {
                    grid.cells[position]
                },
        ),
    }
}

/// A grid plus an unbounded diagonal matrix: the scalar is added, from the
/// right, to the cells of the main diagonal.
pub open spec fn grid_plus_diagonal<T: Semiring>(grid: Grid<T::Model>, scalar: T::Model) -> Grid<
    T::Model,
> {
    Grid {
        height: grid.height,
        width: grid.width,
        cells: Seq::new(
            grid.cells.len(),
            |position: int|
                if on_diagonal(position, grid.width) {
                    T::Sum::apply(grid.cells[position], scalar)
                } else {
                    grid.cells[position]
                },
        ),
    }
}

/// An unbounded diagonal matrix times a grid: every cell is multiplied by
/// the scalar from the left.
pub open spec fn diagonal_times_grid<T: Semiring>(scalar: T::Model, grid: Grid<T::Model>) -> Grid<
    T::Model,
> {
    grid.map(|cell: T::Model| T::Multi::apply(scalar, cell))
}

/// A grid times an unbounded diagonal matrix: every cell is multiplied by
/// the scalar from the right.
pub open spec fn grid_times_diagonal<T: Semiring>(grid: Grid<T::Model>, scalar: T::Model) -> Grid<
    T::Model,
> {
    grid.map(|cell: T::Model| T::Multi::apply(cell, scalar))
}

/// The sum of two matrices.
pub open spec fn matrix_sum<T: Semiring>(
    left: MatrixValue<T::Model>,
    right: MatrixValue<T::Model>,
) -> MatrixValue<T::Model> {
    match (left, right) {
        (MatrixValue::Diagonal(a), MatrixValue::Diagonal(b)) => MatrixValue::Diagonal(
            T::Sum::apply(a, b),
        ),
        (MatrixValue::Diagonal(a), MatrixValue::Finite(b)) => MatrixValue::Finite(
            diagonal_plus_grid::<T>(a, b),
        ),
        (MatrixValue::Finite(a), MatrixValue::Diagonal(b)) => MatrixValue::Finite(
            grid_plus_diagonal::<T>(a, b),
        ),
        (MatrixValue::Finite(a), MatrixValue::Finite(b)) => MatrixValue::Finite(
            grid_sum::<T>(a, b),
        ),
    }
}

/// Whether the scalar can be added, from the left, to every cell of the
/// main diagonal of the grid.
pub open spec fn diagonal_plus_grid_defined<T: Semiring>(
    scalar: T::Model,
    grid: Grid<T::Model>,
) -> bool {
    forall|position: int|
        0 <= position < grid.cells.len() && on_diagonal(position, grid.width) ==> T::Sum::defined(
            scalar,
            #[trigger] grid.cells[position],
        )
}

/// Whether the scalar can be added, from the right, to every cell of the
/// main diagonal of the grid.
pub open spec fn grid_plus_diagonal_defined<T: Semiring>(
    grid: Grid<T::Model>,
    scalar: T::Model,
) -> bool {
    forall|position: int|
        0 <= position < grid.cells.len() && on_diagonal(position, grid.width) ==> T::Sum::defined(
            #[trigger] grid.cells[position],
            scalar,
        )
}

/// Whether the sum of two matrices can be computed.
pub open spec fn matrix_sum_defined<T: Semiring>(
    left: MatrixValue<T::Model>,
    right: MatrixValue<T::Model>,
) -> bool {
    match (left, right) {
        (MatrixValue::Diagonal(a), MatrixValue::Diagonal(b)) => T::Sum::defined(a, b),
        (MatrixValue::Diagonal(a), MatrixValue::Finite(b)) => diagonal_plus_grid_defined::<T>(
            a,
            b,
        ),
        (MatrixValue::Finite(a), MatrixValue::Diagonal(b)) => grid_plus_diagonal_defined::<T>(
            a,
            b,
        ),
        (MatrixValue::Finite(a), MatrixValue::Finite(b)) => grid_sum_defined::<T>(a, b),
    }
}

/// The product of two matrices.
pub open spec fn matrix_product<T: Semiring>(
    left: MatrixValue<T::Model>,
    right: MatrixValue<T::Model>,
) -> MatrixValue<T::Model> {
    match (left, right) {
        (MatrixValue::Diagonal(a), MatrixValue::Diagonal(b)) => MatrixValue::Diagonal(
            T::Multi::apply(a, b),
        ),
        (MatrixValue::Diagonal(a), MatrixValue::Finite(b)) => MatrixValue::Finite(
            diagonal_times_grid::<T>(a, b),
        ),
        (MatrixValue::Finite(a), MatrixValue::Diagonal(b)) => MatrixValue::Finite(
            grid_times_diagonal::<T>(a, b),
        ),
        (MatrixValue::Finite(a), MatrixValue::Finite(b)) => MatrixValue::Finite(
            grid_product::<T>(a, b),
        ),
    }
}

/// Whether every cell of the grid can be multiplied by the scalar from the
/// left.
pub open spec fn diagonal_times_grid_defined<T: Semiring>(
    scalar: T::Model,
    grid: Grid<T::Model>,
) -> bool {
    forall|position: int|
        0 <= position < grid.cells.len() ==> T::Multi::defined(
            scalar,
            #[trigger] grid.cells[position],
        )
}

/// Whether every cell of the grid can be multiplied by the scalar from the
/// right.
pub open spec fn grid_times_diagonal_defined<T: Semiring>(
    grid: Grid<T::Model>,
    scalar: T::Model,
) -> bool {
    forall|position: int|
        0 <= position < grid.cells.len() ==> T::Multi::defined(
            #[trigger] grid.cells[position],
            scalar,
        )
}

/// Whether the product of two matrices can be computed.
pub open spec fn matrix_product_defined<T: Semiring>(
    left: MatrixValue<T::Model>,
    right: MatrixValue<T::Model>,
) -> bool {
    match (left, right) {
        (MatrixValue::Diagonal(a), MatrixValue::Diagonal(b)) => T::Multi::defined(a, b),
        (MatrixValue::Diagonal(a), MatrixValue::Finite(b)) => diagonal_times_grid_defined::<T>(
            a,
            b,
        ),
        (MatrixValue::Finite(a), MatrixValue::Diagonal(b)) => grid_times_diagonal_defined::<T>(
            a,
            b,
        ),
        (MatrixValue::Finite(a), MatrixValue::Finite(b)) => grid_product_defined::<T>(a, b),
    }
}

/// The matrix of the additive inverses of the scalar or of the cells.
pub open spec fn matrix_negation<T: Semiring>(matrix: MatrixValue<T::Model>) -> MatrixValue<
    T::Model,
> where T::Sum: Invertible<T> {
    matrix.map(|cell: T::Model| T::Sum::inverse_of(cell))
}

/// An unbounded diagonal matrix plus a finite one is the finite one with
/// the scalar added to the cells whose row is their column, and to no other.
pub proof fn lemma_diagonal_plus_finite<T: Semiring>(
    scalar: T::Model,
    grid: Grid<T::Model>,
    row: int,
    column: int,
)
    requires
        grid.well_formed(),
        0 <= row < grid.height,
        0 <= column < grid.width,
    ensures
        matrix_sum::<T>(MatrixValue::Diagonal(scalar), MatrixValue::Finite(grid))
            == MatrixValue::Finite(diagonal_plus_grid::<T>(scalar, grid)),
        diagonal_plus_grid::<T>(scalar, grid).well_formed(),
        diagonal_plus_grid::<T>(scalar, grid).height == grid.height,
        diagonal_plus_grid::<T>(scalar, grid).width == grid.width,
        diagonal_plus_grid::<T>(scalar, grid).at(row, column) == if row == column {
            T::Sum::apply(scalar, grid.at(row, column))
        } else {
            grid.at(row, column)
        },
        matrix_sum::<T>(MatrixValue::Finite(grid), MatrixValue::Diagonal(scalar))
            == MatrixValue::Finite(grid_plus_diagonal::<T>(grid, scalar)),
        grid_plus_diagonal::<T>(grid, scalar).at(row, column) == if row == column {
            T::Sum::apply(grid.at(row, column), scalar)
        } else {
            grid.at(row, column)
        },
{
    lemma_cell_position(row, column, grid.height as int, grid.width as int);
    lemma_cell_of_position(row, column, grid.width as int);
}

/// An unbounded diagonal matrix times a finite one is the finite one with
/// every cell multiplied by the scalar.
pub proof fn lemma_diagonal_times_finite<T: Semiring>(
    scalar: T::Model,
    grid: Grid<T::Model>,
    row: int,
    column: int,
)
    requires
        grid.well_formed(),
        0 <= row < grid.height,
        0 <= column < grid.width,
    ensures
        matrix_product::<T>(MatrixValue::Diagonal(scalar), MatrixValue::Finite(grid))
            == MatrixValue::Finite(diagonal_times_grid::<T>(scalar, grid)),
        diagonal_times_grid::<T>(scalar, grid).well_formed(),
        diagonal_times_grid::<T>(scalar, grid).height == grid.height,
        diagonal_times_grid::<T>(scalar, grid).width == grid.width,
        diagonal_times_grid::<T>(scalar, grid).at(row, column) == T::Multi::apply(
            scalar,
            grid.at(row, column),
        ),
        matrix_product::<T>(MatrixValue::Finite(grid), MatrixValue::Diagonal(scalar))
            == MatrixValue::Finite(grid_times_diagonal::<T>(grid, scalar)),
        grid_times_diagonal::<T>(grid, scalar).at(row, column) == T::Multi::apply(
            grid.at(row, column),
            scalar,
        ),
{
    lemma_cell_position(row, column, grid.height as int, grid.width as int);
}

/// The grid of the given dimensions that an unbounded diagonal matrix
/// stands for: `scalar` where the row is the column, the additive identity
/// elsewhere.
pub open spec fn diagonal_grid<T: Semiring>(scalar: T::Model, height: nat, width: nat) -> Grid<
    T::Model,
> {
    Grid {
        height,
        width,
        cells: Seq::new(
            height * width,
            |position: int|
                if on_diagonal(position, width) {
                    scalar
                } else {
                    T::Sum::identity_model()
                },
        ),
    }
}

/// Added to a finite matrix, an unbounded diagonal matrix is the grid of
/// the dimensions of that matrix that it stands for.
pub proof fn lemma_diagonal_sum_is_finite<T: Semiring>(scalar: T::Model, grid: Grid<T::Model>)
    requires
        grid.well_formed(),
    ensures
        diagonal_plus_grid::<T>(scalar, grid) == grid_sum::<T>(
            diagonal_grid::<T>(scalar, grid.height, grid.width),
            grid,
        ),
{
    let finite = diagonal_grid::<T>(scalar, grid.height, grid.width);
    let left = diagonal_plus_grid::<T>(scalar, grid);
    let right = grid_sum::<T>(finite, grid);
    assert forall|position: int| 0 <= position < grid.cells.len() implies left.cells[position]
        == right.cells[position] by {
        T::Sum::identity_is_neutral(grid.cells[position]);
    }
    assert(left =~= right);
}

/// Multiplied with a finite matrix, an unbounded diagonal matrix is the
/// square grid that it stands for, with as many columns as the matrix has
/// rows.
pub proof fn lemma_diagonal_product_is_finite<T: Distributive>(
    scalar: T::Model,
    grid: Grid<T::Model>,
)
    requires
        grid.well_formed(),
    ensures
        diagonal_times_grid::<T>(scalar, grid) == grid_product::<T>(
            diagonal_grid::<T>(scalar, grid.height, grid.height),
            grid,
        ),
{
    let size = grid.height;
    let finite = diagonal_grid::<T>(scalar, size, size);
    let left = diagonal_times_grid::<T>(scalar, grid);
    let right = grid_product::<T>(finite, grid);
    if size == 0 {
        assert(0 * 0 == 0) by (nonlinear_arith);
        lemma_grid_product_unfit::<T>(finite, grid);
        assert(left =~= Grid::<T::Model>::empty());
    } else {
        assert(finite.cells.len() == size * size);
        lemma_grid_product_cells::<T>(finite, grid);
        assert forall|row: int, column: int|
            0 <= row < left.height && 0 <= column < left.width implies #[trigger] left.at(
            row,
            column,
        ) == right.at(row, column) by {
            let terms = cell_products::<T>(finite, grid, row, column);
            assert forall|k: int| 0 <= k < size && k != row implies #[trigger] terms(k)
                == T::Sum::identity_model() by {
                lemma_cell_position(row, k, size as int, size as int);
                lemma_cell_of_position(row, k, size as int);
                T::zero_annihilates(grid.at(k, column));
            }
            lemma_series_of_one_term::<T>(terms, size, row);
            lemma_cell_position(row, row, size as int, size as int);
            lemma_cell_of_position(row, row, size as int);
            lemma_cell_position(row, column, grid.height as int, grid.width as int);
            assert(terms(row) == T::Multi::apply(scalar, grid.at(row, column)));
        }
        lemma_grids_equal_by_cells(left, right);
    }
}

/// The tag of the addition of matrices over `T`.
pub struct MatrixSum<T: Semiring>(PhantomData<T>);

/// The tag of the multiplication of matrices over `T`.
pub struct MatrixMul<T: Semiring>(PhantomData<T>);

/// Adds `scalar` to the cells of the main diagonal of `matrix`, from the
/// left or from the right.
fn add_to_diagonal<T: Semiring>(scalar: &T, matrix: FiniteMatrix<T>, from_left: bool) -> (result:
    FiniteMatrix<T>)
    requires
        from_left ==> matrix_sum_defined::<T>(
            MatrixValue::Diagonal(scalar.model()),
            MatrixValue::Finite(matrix.model()),
        ),
        !from_left ==> matrix_sum_defined::<T>(
            MatrixValue::Finite(matrix.model()),
            MatrixValue::Diagonal(scalar.model()),
        ),
    ensures
        from_left ==> result.model() == diagonal_plus_grid::<T>(scalar.model(), matrix.model()),
        !from_left ==> result.model() == grid_plus_diagonal::<T>(matrix.model(), scalar.model()),
{
    // The getters tell that the matrix is well formed.
    let height = matrix.height();
    let ghost grid = matrix@;
    let ghost model = matrix.model();
    let onto_diagonal = |index: (usize, usize), cell: T| -> (sum: T)
        requires
            index.0 == index.1 && from_left ==> T::Sum::defined(scalar.model(), cell.model()),
            index.0 == index.1 && !from_left ==> T::Sum::defined(cell.model(), scalar.model()),
        ensures
            sum.model() == if index.0 != index.1 {
                cell.model()
            } else if from_left {
                T::Sum::apply(scalar.model(), cell.model())
            } else {
                T::Sum::apply(cell.model(), scalar.model())
            },
        {
            if index.0 == index.1 {
                let copy = duplicate(scalar);
                if from_left {
                    plus(copy, cell)
                } else {
                    plus(cell, copy)
                }
            } else {
                cell
            }
        };
    proof {
        assert forall|row: usize, column: usize|
            row < grid.height && column < grid.width implies call_requires(
            onto_diagonal,
            ((row, column), #[trigger] grid.at(row as int, column as int)),
        ) by {
            lemma_cell_position(row as int, column as int, grid.height as int, grid.width as int);
            lemma_cell_of_position(row as int, column as int, grid.width as int);
            let position = position_of(row as int, column as int, grid.width as int);
            assert(model.cells[position] == grid.cells[position].model());
            assert(row == column ==> on_diagonal(position, grid.width));
        }
    }
    let result = matrix.map_with_indexes(onto_diagonal);
    proof {
        let expected = if from_left {
            diagonal_plus_grid::<T>(scalar.model(), model)
        } else {
            grid_plus_diagonal::<T>(model, scalar.model())
        };
        assert forall|position: int| 0 <= position < grid.cells.len() implies (
        #[trigger] result@.cells[position]).model() == expected.cells[position] by {
            assert(0 < grid.width) by (nonlinear_arith)
                requires
                    0 <= position < grid.height * grid.width,
            ;
            lemma_position_cell(position, grid.height as int, grid.width as int);
            let row = position / (grid.width as int);
            let column = position % (grid.width as int);
            assert(call_ensures(
                onto_diagonal,
                ((row as usize, column as usize), grid.at(row, column)),
                result@.at(row, column),
            ));
        }
        assert(result.model() =~= expected);
    }
    result
}

/// Multiplies every cell of `matrix` by `scalar`, from the left or from the
/// right.
fn scale<T: Semiring>(scalar: &T, matrix: FiniteMatrix<T>, from_left: bool) -> (result:
    FiniteMatrix<T>)
    requires
        from_left ==> matrix_product_defined::<T>(
            MatrixValue::Diagonal(scalar.model()),
            MatrixValue::Finite(matrix.model()),
        ),
        !from_left ==> matrix_product_defined::<T>(
            MatrixValue::Finite(matrix.model()),
            MatrixValue::Diagonal(scalar.model()),
        ),
    ensures
        from_left ==> result.model() == diagonal_times_grid::<T>(scalar.model(), matrix.model()),
        !from_left ==> result.model() == grid_times_diagonal::<T>(matrix.model(), scalar.model()),
{
    let ghost grid = matrix@;
    let ghost model = matrix.model();
    let scaled = |cell: T| -> (product: T)
        requires
            from_left ==> T::Multi::defined(scalar.model(), cell.model()),
            !from_left ==> T::Multi::defined(cell.model(), scalar.model()),
        ensures
            product.model() == if from_left {
                T::Multi::apply(scalar.model(), cell.model())
            } else {
                T::Multi::apply(cell.model(), scalar.model())
            },
        {
            let copy = duplicate(scalar);
            if from_left {
                multi(copy, cell)
            } else {
                multi(cell, copy)
            }
        };
    proof {
        assert forall|position: int| 0 <= position < grid.cells.len() implies call_requires(
            scaled,
            (#[trigger] grid.cells[position],),
        ) by {
            assert(model.cells[position] == grid.cells[position].model());
        }
    }
    let result = matrix.map(scaled);
    proof {
        let expected = if from_left {
            diagonal_times_grid::<T>(scalar.model(), model)
        } else {
            grid_times_diagonal::<T>(model, scalar.model())
        };
        assert forall|position: int| 0 <= position < grid.cells.len() implies (
        #[trigger] result@.cells[position]).model() == expected.cells[position] by {
            assert(call_ensures(scaled, (grid.cells[position],), result@.cells[position]));
        }
        assert(result.model() =~= expected);
    }
    result
}

impl<T: Semiring> Magma<Matrix<T>> for MatrixSum<T> {
    open spec fn defined(a: MatrixValue<T::Model>, b: MatrixValue<T::Model>) -> bool {
        matrix_sum_defined::<T>(a, b)
    }

    open spec fn apply(a: MatrixValue<T::Model>, b: MatrixValue<T::Model>) -> MatrixValue<
        T::Model,
    > {
        matrix_sum::<T>(a, b)
    }

    fn operation(operand1: Matrix<T>, operand2: Matrix<T>) -> (result: Matrix<T>) {
        match operand1 {
            Matrix::InfiniteDiagonal(d1) => match operand2 {
                Matrix::InfiniteDiagonal(d2) => Matrix::InfiniteDiagonal(plus(d1, d2)),
                Matrix::Finite(m2) => Matrix::Finite(add_to_diagonal(&d1, m2, true)),
            },
            Matrix::Finite(m1) => match operand2 {
                Matrix::InfiniteDiagonal(d2) => Matrix::Finite(add_to_diagonal(&d2, m1, false)),
                Matrix::Finite(m2) => Matrix::Finite(FiniteMatrixSum::operation(m1, m2)),
            },
        }
    }
}

impl<T: Semiring> Magma<Matrix<T>> for MatrixMul<T> {
    open spec fn defined(a: MatrixValue<T::Model>, b: MatrixValue<T::Model>) -> bool {
        matrix_product_defined::<T>(a, b)
    }

    open spec fn apply(a: MatrixValue<T::Model>, b: MatrixValue<T::Model>) -> MatrixValue<
        T::Model,
    > {
        matrix_product::<T>(a, b)
    }

    fn operation(operand1: Matrix<T>, operand2: Matrix<T>) -> (result: Matrix<T>) {
        match operand1 {
            Matrix::InfiniteDiagonal(d1) => match operand2 {
                Matrix::InfiniteDiagonal(d2) => Matrix::InfiniteDiagonal(multi(d1, d2)),
                Matrix::Finite(m2) => Matrix::Finite(scale(&d1, m2, true)),
            },
            Matrix::Finite(m1) => match operand2 {
                Matrix::InfiniteDiagonal(d2) => Matrix::Finite(scale(&d2, m1, false)),
                Matrix::Finite(m2) => Matrix::Finite(FiniteMatrixMul::operation(m1, m2)),
            },
        }
    }
}

/// The scalar of an unbounded diagonal matrix, or the cell of a grid at
/// the given place: what the matrix brings to an operation on that cell.
spec fn share<S>(matrix: MatrixValue<S>, position: int) -> S {
    match matrix {
        MatrixValue::Diagonal(scalar) => scalar,
        MatrixValue::Finite(grid) => grid.cells[position],
    }
}

impl<T: Semiring> Associative<Matrix<T>> for MatrixSum<T> {
    proof fn associative(
        a: MatrixValue<T::Model>,
        b: MatrixValue<T::Model>,
        c: MatrixValue<T::Model>,
    ) {
        let left = matrix_sum::<T>(matrix_sum::<T>(a, b), c);
        let right = matrix_sum::<T>(a, matrix_sum::<T>(b, c));
        match (left, right) {
            (MatrixValue::Finite(l), MatrixValue::Finite(r)) => {
                assert(l.cells.len() == r.cells.len());
                assert forall|position: int| 0 <= position < l.cells.len() implies l.cells[position]
                    == r.cells[position] by {
                    T::Sum::associative(share(a, position), share(b, position), share(c, position));
                }
                assert(l =~= r);
            },
            _ => {
                T::Sum::associative(share(a, 0), share(b, 0), share(c, 0));
            },
        }
    }
}

impl<T: Semiring> Commutative<Matrix<T>> for MatrixSum<T> {
    proof fn commutative(a: MatrixValue<T::Model>, b: MatrixValue<T::Model>) {
        let left = matrix_sum::<T>(a, b);
        let right = matrix_sum::<T>(b, a);
        match (left, right) {
            (MatrixValue::Finite(l), MatrixValue::Finite(r)) => {
                assert forall|position: int| 0 <= position < l.cells.len() implies l.cells[position]
                    == r.cells[position] by {
                    T::Sum::commutative(share(a, position), share(b, position));
                }
                assert(l =~= r);
            },
            _ => {
                T::Sum::commutative(share(a, 0), share(b, 0));
            },
        }
    }
}

impl<T: Semiring> WithIdentityElement<Matrix<T>> for MatrixSum<T> {
    open spec fn identity_model() -> MatrixValue<T::Model> {
        MatrixValue::Diagonal(T::Sum::identity_model())
    }

    fn identity() -> (result: Matrix<T>) {
        Matrix::InfiniteDiagonal(zero())
    }

    proof fn identity_is_neutral(a: MatrixValue<T::Model>) {
        let zero = T::Sum::identity_model();
        match a {
            MatrixValue::Diagonal(scalar) => {
                T::Sum::identity_is_neutral(scalar);
            },
            MatrixValue::Finite(grid) => {
                assert forall|position: int| 0 <= position < grid.cells.len() implies T::Sum::apply(
                    zero,
                    #[trigger] grid.cells[position],
                ) == grid.cells[position] && T::Sum::apply(grid.cells[position], zero)
                    == grid.cells[position] by {
                    T::Sum::identity_is_neutral(grid.cells[position]);
                }
                assert(diagonal_plus_grid::<T>(zero, grid) =~= grid);
                assert(grid_plus_diagonal::<T>(grid, zero) =~= grid);
            },
        }
    }
}

impl<T: Semiring> Invertible<Matrix<T>> for MatrixSum<T> where T::Sum: Invertible<T> {
    open spec fn invertible(a: MatrixValue<T::Model>) -> bool {
        match a {
            MatrixValue::Diagonal(scalar) => T::Sum::invertible(scalar),
            MatrixValue::Finite(grid) => FiniteMatrixSum::<T>::invertible(grid),
        }
    }

    open spec fn inverse_of(a: MatrixValue<T::Model>) -> MatrixValue<T::Model> {
        matrix_negation::<T>(a)
    }

    fn inverse(operand: Matrix<T>) -> (result: Matrix<T>) {
        match operand {
            Matrix::InfiniteDiagonal(d) => Matrix::InfiniteDiagonal(T::Sum::inverse(d)),
            Matrix::Finite(m) => Matrix::Finite(FiniteMatrixSum::inverse(m)),
        }
    }

    proof fn inverse_absorbs(a: MatrixValue<T::Model>) {
        match a {
            MatrixValue::Diagonal(scalar) => {
                T::Sum::inverse_absorbs(scalar);
            },
            MatrixValue::Finite(grid) => {
                FiniteMatrixSum::<T>::inverse_absorbs(grid);
            },
        }
    }
}

/// A scalar on the left of a product of grids may go to its left factor.
proof fn lemma_scalar_enters_left<T: Distributive>(
    scalar: T::Model,
    g: Grid<T::Model>,
    h: Grid<T::Model>,
)
    ensures
        grid_product::<T>(diagonal_times_grid::<T>(scalar, g), h) == diagonal_times_grid::<T>(
            scalar,
            grid_product::<T>(g, h),
        ),
{
    let scaled = diagonal_times_grid::<T>(scalar, g);
    let left = grid_product::<T>(scaled, h);
    let right = diagonal_times_grid::<T>(scalar, grid_product::<T>(g, h));
    if fit_for_product(g, h) {
        lemma_grid_product_cells::<T>(g, h);
        lemma_grid_product_cells::<T>(scaled, h);
        assert forall|row: int, column: int|
            0 <= row < left.height && 0 <= column < left.width implies #[trigger] left.at(
            row,
            column,
        ) == right.at(row, column) by {
            let inner = cell_products::<T>(g, h, row, column);
            let terms = cell_products::<T>(scaled, h, row, column);
            let through = |k: int| T::Multi::apply(scalar, inner(k));
            assert forall|k: int| 0 <= k < g.width implies #[trigger] terms(k) == through(k) by {
                lemma_cell_position(row, k, g.height as int, g.width as int);
                T::Multi::associative(scalar, g.at(row, k), h.at(k, column));
            }
            lemma_series_of_equal_terms::<T>(terms, through, g.width);
            lemma_series_times_left::<T>(scalar, inner, g.width);
            lemma_cell_position(row, column, g.height as int, h.width as int);
            let product = grid_product::<T>(g, h);
            assert(product.at(row, column) == series::<T>(inner, g.width));
            assert(right.at(row, column) == T::Multi::apply(scalar, product.at(row, column)));
            assert(left.at(row, column) == series::<T>(terms, g.width));
        }
        lemma_grids_equal_by_cells(left, right);
    } else {
        lemma_grid_product_unfit::<T>(g, h);
        lemma_grid_product_unfit::<T>(scaled, h);
        assert(right =~= Grid::<T::Model>::empty());
    }
}

/// A scalar between the factors of a product of grids may go to either.
proof fn lemma_scalar_enters_either<T: Distributive>(
    g: Grid<T::Model>,
    scalar: T::Model,
    h: Grid<T::Model>,
)
    ensures
        grid_product::<T>(grid_times_diagonal::<T>(g, scalar), h) == grid_product::<T>(
            g,
            diagonal_times_grid::<T>(scalar, h),
        ),
{
    let scaled_g = grid_times_diagonal::<T>(g, scalar);
    let scaled_h = diagonal_times_grid::<T>(scalar, h);
    let left = grid_product::<T>(scaled_g, h);
    let right = grid_product::<T>(g, scaled_h);
    if fit_for_product(g, h) {
        lemma_grid_product_cells::<T>(scaled_g, h);
        lemma_grid_product_cells::<T>(g, scaled_h);
        assert forall|row: int, column: int|
            0 <= row < left.height && 0 <= column < left.width implies #[trigger] left.at(
            row,
            column,
        ) == right.at(row, column) by {
            let left_terms = cell_products::<T>(scaled_g, h, row, column);
            let right_terms = cell_products::<T>(g, scaled_h, row, column);
            assert forall|k: int| 0 <= k < g.width implies #[trigger] left_terms(k) == right_terms(
                k,
            ) by {
                lemma_cell_position(row, k, g.height as int, g.width as int);
                lemma_cell_position(k, column, h.height as int, h.width as int);
                T::Multi::associative(g.at(row, k), scalar, h.at(k, column));
            }
            lemma_series_of_equal_terms::<T>(left_terms, right_terms, g.width);
        }
        lemma_grids_equal_by_cells(left, right);
    } else {
        lemma_grid_product_unfit::<T>(scaled_g, h);
        lemma_grid_product_unfit::<T>(g, scaled_h);
    }
}

/// A scalar on the right of a product of grids may go to its right factor.
proof fn lemma_scalar_enters_right<T: Distributive>(
    g: Grid<T::Model>,
    h: Grid<T::Model>,
    scalar: T::Model,
)
    ensures
        grid_times_diagonal::<T>(grid_product::<T>(g, h), scalar) == grid_product::<T>(
            g,
            grid_times_diagonal::<T>(h, scalar),
        ),
{
    let scaled = grid_times_diagonal::<T>(h, scalar);
    let left = grid_times_diagonal::<T>(grid_product::<T>(g, h), scalar);
    let right = grid_product::<T>(g, scaled);
    if fit_for_product(g, h) {
        lemma_grid_product_cells::<T>(g, h);
        lemma_grid_product_cells::<T>(g, scaled);
        assert forall|row: int, column: int|
            0 <= row < left.height && 0 <= column < left.width implies #[trigger] left.at(
            row,
            column,
        ) == right.at(row, column) by {
            let inner = cell_products::<T>(g, h, row, column);
            let terms = cell_products::<T>(g, scaled, row, column);
            let through = |k: int| T::Multi::apply(inner(k), scalar);
            assert forall|k: int| 0 <= k < g.width implies #[trigger] terms(k) == through(k) by {
                lemma_cell_position(k, column, h.height as int, h.width as int);
                T::Multi::associative(g.at(row, k), h.at(k, column), scalar);
            }
            lemma_series_of_equal_terms::<T>(terms, through, g.width);
            lemma_series_times_right::<T>(inner, scalar, g.width);
            lemma_cell_position(row, column, g.height as int, h.width as int);
            let product = grid_product::<T>(g, h);
            assert(product.at(row, column) == series::<T>(inner, g.width));
            assert(left.at(row, column) == T::Multi::apply(product.at(row, column), scalar));
            assert(right.at(row, column) == series::<T>(terms, g.width));
        }
        lemma_grids_equal_by_cells(left, right);
    } else {
        lemma_grid_product_unfit::<T>(g, h);
        lemma_grid_product_unfit::<T>(g, scaled);
        assert(left =~= Grid::<T::Model>::empty());
    }
}

impl<T: Distributive> Associative<Matrix<T>> for MatrixMul<T> {
    proof fn associative(
        a: MatrixValue<T::Model>,
        b: MatrixValue<T::Model>,
        c: MatrixValue<T::Model>,
    ) {
        let left = matrix_product::<T>(matrix_product::<T>(a, b), c);
        let right = matrix_product::<T>(a, matrix_product::<T>(b, c));
        match (a, b, c) {
            (MatrixValue::Finite(g), MatrixValue::Finite(h), MatrixValue::Finite(i)) => {
                FiniteMatrixMul::<T>::associative(g, h, i);
            },
            (MatrixValue::Diagonal(scalar), MatrixValue::Finite(g), MatrixValue::Finite(h)) => {
                lemma_scalar_enters_left::<T>(scalar, g, h);
            },
            (MatrixValue::Finite(g), MatrixValue::Diagonal(scalar), MatrixValue::Finite(h)) => {
                lemma_scalar_enters_either::<T>(g, scalar, h);
            },
            (MatrixValue::Finite(g), MatrixValue::Finite(h), MatrixValue::Diagonal(scalar)) => {
                lemma_scalar_enters_right::<T>(g, h, scalar);
            },
            _ => {
                match (left, right) {
                    (MatrixValue::Finite(l), MatrixValue::Finite(r)) => {
                        assert forall|position: int|
                            0 <= position < l.cells.len() implies l.cells[position]
                            == r.cells[position] by {
                            T::Multi::associative(
                                share(a, position),
                                share(b, position),
                                share(c, position),
                            );
                        }
                        assert(l =~= r);
                    },
                    _ => {
                        T::Multi::associative(share(a, 0), share(b, 0), share(c, 0));
                    },
                }
            },
        }
    }
}

impl<T: Semiring> WithIdentityElement<Matrix<T>> for MatrixMul<T> where
    T::Multi: WithIdentityElement<T>,
 {
    open spec fn identity_model() -> MatrixValue<T::Model> {
        MatrixValue::Diagonal(T::Multi::identity_model())
    }

    fn identity() -> (result: Matrix<T>) {
        Matrix::InfiniteDiagonal(T::Multi::identity())
    }

    proof fn identity_is_neutral(a: MatrixValue<T::Model>) {
        let one = T::Multi::identity_model();
        match a {
            MatrixValue::Diagonal(scalar) => {
                T::Multi::identity_is_neutral(scalar);
            },
            MatrixValue::Finite(grid) => {
                assert forall|position: int|
                    0 <= position < grid.cells.len() implies T::Multi::apply(
                    one,
                    #[trigger] grid.cells[position],
                ) == grid.cells[position] && T::Multi::apply(grid.cells[position], one)
                    == grid.cells[position] by {
                    T::Multi::identity_is_neutral(grid.cells[position]);
                }
                assert(diagonal_times_grid::<T>(one, grid) =~= grid);
                assert(grid_times_diagonal::<T>(grid, one) =~= grid);
            },
        }
    }
}

/// Matrices over a semiring whose multiplication distributes over its
/// addition are a value type with an addition and a multiplication of their
/// own.
impl<T: Distributive> Semiring for Matrix<T> {
    type Sum = MatrixSum<T>;

    type Multi = MatrixMul<T>;
}

/// An unbounded diagonal matrix minus a grid, as the operator `-` takes it:
/// on the main diagonal the scalar plus the additive inverse of the cell;
/// off the diagonal the cell as it is.
pub open spec fn diagonal_minus_grid<T: Semiring>(scalar: T::Model, grid: Grid<T::Model>) -> Grid<
    T::Model,
> where T::Sum: Invertible<T> {
    Grid {
        height: grid.height,
        width: grid.width,
        cells: Seq::new(
            grid.cells.len(),
            |position: int|
                if on_diagonal(position, grid.width) {
                    T::Sum::apply(scalar, T::Sum::inverse_of(grid.cells[position]))
                } else {
                    grid.cells[position]
                },
        ),
    }
}

/// Whether every cell of the main diagonal can be subtracted from the
/// scalar.
pub open spec fn diagonal_minus_grid_defined<T: Semiring>(
    scalar: T::Model,
    grid: Grid<T::Model>,
) -> bool where T::Sum: Invertible<T> {
    forall|position: int|
        0 <= position < grid.cells.len() && on_diagonal(position, grid.width) ==> {
            &&& T::Sum::invertible(#[trigger] grid.cells[position])
            &&& T::Sum::defined(scalar, T::Sum::inverse_of(grid.cells[position]))
        }
}

/// The difference of two matrices, as the operator `-` takes it.
pub open spec fn matrix_difference<T: Semiring>(
    left: MatrixValue<T::Model>,
    right: MatrixValue<T::Model>,
) -> MatrixValue<T::Model> where T::Sum: Invertible<T> {
    match (left, right) {
        (MatrixValue::Diagonal(a), MatrixValue::Diagonal(b)) => MatrixValue::Diagonal(
            T::Sum::apply(a, T::Sum::inverse_of(b)),
        ),
        (MatrixValue::Diagonal(a), MatrixValue::Finite(b)) => MatrixValue::Finite(
            diagonal_minus_grid::<T>(a, b),
        ),
        (MatrixValue::Finite(a), MatrixValue::Diagonal(b)) => MatrixValue::Finite(
            grid_plus_diagonal::<T>(a, T::Sum::inverse_of(b)),
        ),
        (MatrixValue::Finite(a), MatrixValue::Finite(b)) => MatrixValue::Finite(
            grid_difference::<T>(a, b),
        ),
    }
}

/// Whether the difference of two matrices can be computed.
pub open spec fn matrix_difference_defined<T: Semiring>(
    left: MatrixValue<T::Model>,
    right: MatrixValue<T::Model>,
) -> bool where T::Sum: Invertible<T> {
    match (left, right) {
        (MatrixValue::Diagonal(a), MatrixValue::Diagonal(b)) => T::Sum::invertible(b)
            && T::Sum::defined(a, T::Sum::inverse_of(b)),
        (MatrixValue::Diagonal(a), MatrixValue::Finite(b)) => diagonal_minus_grid_defined::<T>(
            a,
            b,
        ),
        (MatrixValue::Finite(a), MatrixValue::Diagonal(b)) => T::Sum::invertible(b)
            && grid_plus_diagonal_defined::<T>(a, T::Sum::inverse_of(b)),
        (MatrixValue::Finite(a), MatrixValue::Finite(b)) => grid_difference_defined::<T>(a, b),
    }
}

/// Subtracts the cells of the main diagonal of `matrix` from `scalar` and
/// leaves the others.
fn subtract_from_diagonal<T: Semiring>(scalar: &T, matrix: FiniteMatrix<T>) -> (result:
    FiniteMatrix<T>) where T::Sum: Invertible<T>
    requires
        diagonal_minus_grid_defined::<T>(scalar.model(), matrix.model()),
    ensures
        result.model() == diagonal_minus_grid::<T>(scalar.model(), matrix.model()),
{
    // The getters tell that the matrix is well formed.
    let height = matrix.height();
    let ghost grid = matrix@;
    let ghost model = matrix.model();
    let from_diagonal = |index: (usize, usize), cell: T| -> (difference: T)
        requires
            index.0 == index.1 ==> T::Sum::invertible(cell.model()) && T::Sum::defined(
                scalar.model(),
                T::Sum::inverse_of(cell.model()),
            ),
        ensures
            difference.model() == if index.0 == index.1 {
                T::Sum::apply(scalar.model(), T::Sum::inverse_of(cell.model()))
            } else {
                cell.model()
            },
        {
            if index.0 == index.1 {
                plus(duplicate(scalar), T::Sum::inverse(cell))
            } else {
                cell
            }
        };
    proof {
        assert forall|row: usize, column: usize|
            row < grid.height && column < grid.width implies call_requires(
            from_diagonal,
            ((row, column), #[trigger] grid.at(row as int, column as int)),
        ) by {
            lemma_cell_position(row as int, column as int, grid.height as int, grid.width as int);
            lemma_cell_of_position(row as int, column as int, grid.width as int);
            let position = position_of(row as int, column as int, grid.width as int);
            assert(model.cells[position] == grid.cells[position].model());
            assert(row == column ==> on_diagonal(position, grid.width));
        }
    }
    let result = matrix.map_with_indexes(from_diagonal);
    proof {
        let expected = diagonal_minus_grid::<T>(scalar.model(), model);
        assert forall|position: int| 0 <= position < grid.cells.len() implies (
        #[trigger] result@.cells[position]).model() == expected.cells[position] by {
            assert(0 < grid.width) by (nonlinear_arith)
                requires
                    0 <= position < grid.height * grid.width,
            ;
            lemma_position_cell(position, grid.height as int, grid.width as int);
            let row = position / (grid.width as int);
            let column = position % (grid.width as int);
            assert(call_ensures(
                from_diagonal,
                ((row as usize, column as usize), grid.at(row, column)),
                result@.at(row, column),
            ));
        }
        assert(result.model() =~= expected);
    }
    result
}

/// `left + right` is the sum of two matrices.
impl<T: Semiring> std::ops::Add for Matrix<T> {
    type Output = Matrix<T>;

    fn add(self, rhs: Self) -> (sum: Matrix<T>)
        ensures
            sum.model() == matrix_sum::<T>(self.model(), rhs.model()),
    {
        MatrixSum::operation(self, rhs)
    }
}

/// The sum is stated over what the matrices denote, by `add` itself.
impl<T: Semiring> vstd::std_specs::ops::AddSpecImpl for Matrix<T> {
    open spec fn obeys_add_spec() -> bool {
        false
    }

    open spec fn add_req(self, rhs: Self) -> bool {
        matrix_sum_defined::<T>(self.model(), rhs.model())
    }

    open spec fn add_spec(self, rhs: Self) -> Matrix<T> {
        self
    }
}

/// `left - right` is the difference of two matrices. Where one of them is
/// an unbounded diagonal matrix, only the main diagonal of the other takes
/// part.
impl<T: Semiring> std::ops::Sub for Matrix<T> where T::Sum: Invertible<T> {
    type Output = Matrix<T>;

    fn sub(self, rhs: Self) -> (difference: Matrix<T>)
        ensures
            difference.model() == matrix_difference::<T>(self.model(), rhs.model()),
    {
        match self {
            Matrix::InfiniteDiagonal(d1) => match rhs {
                Matrix::InfiniteDiagonal(d2) => Matrix::InfiniteDiagonal(
                    plus(d1, T::Sum::inverse(d2)),
                ),
                Matrix::Finite(m2) => Matrix::Finite(subtract_from_diagonal(&d1, m2)),
            },
            Matrix::Finite(m1) => match rhs {
                Matrix::InfiniteDiagonal(d2) => {
                    let negated = T::Sum::inverse(d2);
                    Matrix::Finite(add_to_diagonal(&negated, m1, false))
                },
                Matrix::Finite(m2) => Matrix::Finite(m1 - m2),
            },
        }
    }
}

/// The difference is stated over what the matrices denote, by `sub` itself.
impl<T: Semiring> vstd::std_specs::ops::SubSpecImpl for Matrix<T> where T::Sum: Invertible<T> {
    open spec fn obeys_sub_spec() -> bool {
        false
    }

    open spec fn sub_req(self, rhs: Self) -> bool {
        matrix_difference_defined::<T>(self.model(), rhs.model())
    }

    open spec fn sub_spec(self, rhs: Self) -> Matrix<T> {
        self
    }
}

/// `-matrix` is the matrix of the additive inverses of the scalar or of the
/// cells.
impl<T: Semiring> std::ops::Neg for Matrix<T> where T::Sum: Invertible<T> {
    type Output = Matrix<T>;

    fn neg(self) -> (negation: Matrix<T>)
        ensures
            negation.model() == matrix_negation::<T>(self.model()),
    {
        MatrixSum::inverse(self)
    }
}

/// The negation is stated over what the matrix denotes, by `neg` itself.
impl<T: Semiring> vstd::std_specs::ops::NegSpecImpl for Matrix<T> where T::Sum: Invertible<T> {
    open spec fn obeys_neg_spec() -> bool {
        false
    }

    open spec fn neg_req(self) -> bool {
        MatrixSum::<T>::invertible(self.model())
    }

    open spec fn neg_spec(self) -> Matrix<T> {
        self
    }
}

/// `left * right` is the product of two matrices.
impl<T: Semiring> std::ops::Mul for Matrix<T> {
    type Output = Matrix<T>;

    fn mul(self, rhs: Self) -> (product: Matrix<T>)
        ensures
            product.model() == matrix_product::<T>(self.model(), rhs.model()),
    {
        MatrixMul::operation(self, rhs)
    }
}

/// The product is stated over what the matrices denote, by `mul` itself.
impl<T: Semiring> vstd::std_specs::ops::MulSpecImpl for Matrix<T> {
    open spec fn obeys_mul_spec() -> bool {
        false
    }

    open spec fn mul_req(self, rhs: Self) -> bool {
        matrix_product_defined::<T>(self.model(), rhs.model())
    }

    open spec fn mul_spec(self, rhs: Self) -> Matrix<T> {
        self
    }
}

} // verus!
