//! Addition and multiplication of finite matrices over a semiring.
//!
//! On grids both operations are total: where the dimensions do not fit, the
//! result is the grid without cells. The executable operations are offered
//! only where the dimensions fit and every operation on cells can be carried
//! out.

use std::marker::PhantomData;
use vstd::prelude::*;
use vstd::std_specs::iter::IteratorSpec;
use crate::implementations::helpers::series::{
    lemma_series_exchange,
    lemma_series_of_equal_terms,
    lemma_series_times_left,
    lemma_series_defined_before,
    lemma_series_times_right,
    series,
    series_defined,
};
pub use crate::matrix::FiniteMatrix;
use crate::matrix::finite::{
    lemma_cell_of_position,
    lemma_cell_position,
    lemma_grids_equal_by_cells,
    next_item,
    Grid,
    Shape,
};
use crate::structures::basics::{Associative, Commutative, Element, Invertible, Magma};
use crate::structures::ring_like::{multi, plus, Distributive, Semiring};

verus! {

/// Whether two grids have the same dimensions and as many cells.
pub open spec fn same_dimensions<S>(left: Grid<S>, right: Grid<S>) -> bool {
    &&& left.height == right.height
    &&& left.width == right.width
    &&& left.cells.len() == right.cells.len()
}

/// The sum of two grids, cell by cell.
pub open spec fn grid_sum<T: Semiring>(left: Grid<T::Model>, right: Grid<T::Model>) -> Grid<
    T::Model,
> {
    if same_dimensions(left, right) {
        Grid {
            height: left.height,
            width: left.width,
            cells: Seq::new(
                left.cells.len(),
                |position: int| T::Sum::apply(left.cells[position], right.cells[position]),
            ),
        }
    } else {
        Grid::empty()
    }
}

/// Whether the sum of two matrices can be computed: they have the same
/// shape, and every two cells in the same place can be added.
pub open spec fn grid_sum_defined<T: Semiring>(left: Grid<T::Model>, right: Grid<T::Model>) -> bool {
    &&& same_dimensions(left, right)
    &&& forall|position: int|
        0 <= position < left.cells.len() ==> #[trigger] T::Sum::defined(
            left.cells[position],
            right.cells[position],
        )
}

/// The grid of the additive inverses of the cells.
pub open spec fn grid_negation<T: Semiring>(grid: Grid<T::Model>) -> Grid<T::Model> where
    T::Sum: Invertible<T>,
 {
    grid.map(|cell: T::Model| T::Sum::inverse_of(cell))
}

/// The tag of the addition of finite matrices over `T`.
pub struct FiniteMatrixSum<T: Semiring>(PhantomData<T>);

impl<T: Semiring> Magma<FiniteMatrix<T>> for FiniteMatrixSum<T> {
    open spec fn defined(a: Grid<T::Model>, b: Grid<T::Model>) -> bool {
        grid_sum_defined::<T>(a, b)
    }

    open spec fn apply(a: Grid<T::Model>, b: Grid<T::Model>) -> Grid<T::Model> {
        grid_sum::<T>(a, b)
    }

    fn operation(operand1: FiniteMatrix<T>, operand2: FiniteMatrix<T>) -> (result: FiniteMatrix<T>) {
        let shape = operand1.shape();
        if operand2.shape() != shape {
            // Asked for from outside the contract, a sum of matrices of
            // different shapes stops the program.
            return vstd::pervasive::unreached();
        }
        let ghost left_cells = operand1@.cells;
        let ghost right_cells = operand2@.cells;
        let ghost left_model = operand1.model();
        let ghost right_model = operand2.model();
        let mut left = operand1.into_iter();
        let mut right = operand2.into_iter();
        let length = shape.height * shape.width;
        let mut sums: Vec<T> = Vec::with_capacity(length);
        let mut done: usize = 0;
        while done < length
            invariant
                done <= length,
                length == left_cells.len(),
                length == right_cells.len(),
                left_model.cells == left_cells.map_values(|cell: T| cell.model()),
                right_model.cells == right_cells.map_values(|cell: T| cell.model()),
                grid_sum_defined::<T>(left_model, right_model),
                left.remaining() == left_cells.skip(done as int),
                right.remaining() == right_cells.skip(done as int),
                sums@.len() == done,
                forall|position: int|
                    0 <= position < done ==> (#[trigger] sums@[position]).model() == T::Sum::apply(
                        left_model.cells[position],
                        right_model.cells[position],
                    ),
            decreases length - done,
        {
            proof {
                assert(left_cells.skip(done as int).drop_first() == left_cells.skip(done + 1));
                assert(right_cells.skip(done as int).drop_first() == right_cells.skip(done + 1));
                assert(T::Sum::defined(left_model.cells[done as int], right_model.cells[done as int]));
            }
            let a = next_item(&mut left);
            let b = next_item(&mut right);
            sums.push(plus(a, b));
            done += 1;
        }
        let result = FiniteMatrix::from_iter(shape, sums.into_iter());
        proof {
            assert(result@.cells =~= sums@);
            assert(result.model() =~= grid_sum::<T>(left_model, right_model));
        }
        result
    }
}

impl<T: Semiring> Associative<FiniteMatrix<T>> for FiniteMatrixSum<T> {
    proof fn associative(a: Grid<T::Model>, b: Grid<T::Model>, c: Grid<T::Model>) {
        let left = grid_sum::<T>(grid_sum::<T>(a, b), c);
        let right = grid_sum::<T>(a, grid_sum::<T>(b, c));
        if same_dimensions(a, b) && same_dimensions(b, c) {
            assert forall|position: int| 0 <= position < a.cells.len() implies left.cells[position]
                == right.cells[position] by {
                T::Sum::associative(a.cells[position], b.cells[position], c.cells[position]);
            }
        }
        assert(left =~= right);
    }
}

impl<T: Semiring> Commutative<FiniteMatrix<T>> for FiniteMatrixSum<T> {
    proof fn commutative(a: Grid<T::Model>, b: Grid<T::Model>) {
        let left = grid_sum::<T>(a, b);
        let right = grid_sum::<T>(b, a);
        if same_dimensions(a, b) {
            assert forall|position: int| 0 <= position < a.cells.len() implies left.cells[position]
                == right.cells[position] by {
                T::Sum::commutative(a.cells[position], b.cells[position]);
            }
        }
        assert(left =~= right);
    }
}

impl<T: Semiring> Invertible<FiniteMatrix<T>> for FiniteMatrixSum<T> where T::Sum: Invertible<T> {
    open spec fn invertible(a: Grid<T::Model>) -> bool {
        forall|position: int|
            0 <= position < a.cells.len() ==> T::Sum::invertible(#[trigger] a.cells[position])
    }

    open spec fn inverse_of(a: Grid<T::Model>) -> Grid<T::Model> {
        grid_negation::<T>(a)
    }

    fn inverse(operand: FiniteMatrix<T>) -> (result: FiniteMatrix<T>) {
        let ghost cells = operand@.cells;
        let ghost model = operand.model();
        let negate = |cell: T| -> (negated: T)
            requires
                T::Sum::invertible(cell.model()),
            ensures
                negated.model() == T::Sum::inverse_of(cell.model()),
            { T::Sum::inverse(cell) };
        proof {
            assert forall|position: int| 0 <= position < cells.len() implies call_requires(
                negate,
                (#[trigger] cells[position],),
            ) by {
                assert(model.cells[position] == cells[position].model());
            }
        }
        let result = operand.map(negate);
        proof {
            assert forall|position: int| 0 <= position < cells.len() implies (
            #[trigger] result@.cells[position]).model() == T::Sum::inverse_of(
                model.cells[position],
            ) by {
                assert(call_ensures(negate, (cells[position],), result@.cells[position]));
            }
            assert(result.model() =~= grid_negation::<T>(model));
        }
        result
    }

    proof fn inverse_absorbs(a: Grid<T::Model>) {
        let around = grid_sum::<T>(grid_sum::<T>(a, grid_negation::<T>(a)), a);
        assert forall|position: int| 0 <= position < a.cells.len() implies around.cells[position]
            == a.cells[position] by {
            T::Sum::inverse_absorbs(a.cells[position]);
        }
        assert(around =~= a);
    }
}

/// Whether the columns of the left grid are the rows of the right one.
pub open spec fn fit_for_product<S>(left: Grid<S>, right: Grid<S>) -> bool {
    &&& left.well_formed()
    &&& right.well_formed()
    &&& left.width == right.height
}

/// The products that make up one cell of a product of grids: a cell of the
/// row of the left grid times the cell of the column of the right one that
/// meets it.
pub open spec fn cell_products<T: Semiring>(
    left: Grid<T::Model>,
    right: Grid<T::Model>,
    row: int,
    column: int,
) -> spec_fn(int) -> T::Model {
    |k: int| T::Multi::apply(left.at(row, k), right.at(k, column))
}

/// One cell of a product of grids: the sum over `k` of the cell `(row, k)`
/// of the left grid times the cell `(k, column)` of the right one.
pub open spec fn product_cell<T: Semiring>(
    left: Grid<T::Model>,
    right: Grid<T::Model>,
    row: int,
    column: int,
) -> T::Model {
    series::<T>(cell_products::<T>(left, right, row, column), left.width)
}

/// The product of two grids.
pub open spec fn grid_product<T: Semiring>(left: Grid<T::Model>, right: Grid<T::Model>) -> Grid<
    T::Model,
> {
    if fit_for_product(left, right) {
        Grid {
            height: left.height,
            width: right.width,
            cells: Seq::new(
                left.height * right.width,
                |position: int|
                    product_cell::<T>(
                        left,
                        right,
                        position / (right.width as int),
                        position % (right.width as int),
                    ),
            ),
        }
    } else {
        Grid::empty()
    }
}

/// Whether one cell of a product can be computed: every product and every
/// addition of its series can be carried out.
pub open spec fn product_cell_defined<T: Semiring>(
    left: Grid<T::Model>,
    right: Grid<T::Model>,
    row: int,
    column: int,
) -> bool {
    &&& forall|k: int|
        0 <= k < left.width ==> #[trigger] T::Multi::defined(left.at(row, k), right.at(k, column))
    &&& series_defined::<T>(cell_products::<T>(left, right, row, column), left.width)
}

/// Whether the product of two matrices can be computed: the inner
/// dimensions agree, the cells of the result can be counted, and each of
/// them can be computed.
pub open spec fn grid_product_defined<T: Semiring>(left: Grid<T::Model>, right: Grid<T::Model>) -> bool {
    &&& fit_for_product(left, right)
    &&& left.height * right.width <= usize::MAX
    &&& forall|row: int, column: int|
        0 <= row < left.height && 0 <= column < right.width ==> #[trigger] product_cell_defined::<T>(
            left,
            right,
            row,
            column,
        )
}

/// The product of grids that fit is well formed and holds the product cells.
pub proof fn lemma_grid_product_cells<T: Semiring>(left: Grid<T::Model>, right: Grid<T::Model>)
    requires
        fit_for_product(left, right),
    ensures
        grid_product::<T>(left, right).well_formed(),
        grid_product::<T>(left, right).height == left.height,
        grid_product::<T>(left, right).width == right.width,
        forall|row: int, column: int|
            0 <= row < left.height && 0 <= column < right.width ==> #[trigger] grid_product::<T>(
                left,
                right,
            ).at(row, column) == product_cell::<T>(left, right, row, column),
{
    let product = grid_product::<T>(left, right);
    assert forall|row: int, column: int|
        0 <= row < left.height && 0 <= column < right.width implies #[trigger] product.at(
        row,
        column,
    ) == product_cell::<T>(left, right, row, column) by {
        lemma_cell_position(row, column, left.height as int, right.width as int);
        lemma_cell_of_position(row, column, right.width as int);
    }
}

/// A product of grids that do not fit has no cells.
pub proof fn lemma_grid_product_unfit<T: Semiring>(left: Grid<T::Model>, right: Grid<T::Model>)
    requires
        !fit_for_product(left, right) || left.height == 0 || right.width == 0,
    ensures
        grid_product::<T>(left, right) == Grid::<T::Model>::empty(),
{
    if fit_for_product(left, right) {
        assert(left.height * right.width == 0) by (nonlinear_arith)
            requires
                left.height == 0 || right.width == 0,
        ;
    }
    assert(grid_product::<T>(left, right) =~= Grid::<T::Model>::empty());
}

/// The tag of the multiplication of finite matrices over `T`.
pub struct FiniteMatrixMul<T: Semiring>(PhantomData<T>);

/// What a cell of a matrix denotes is the cell of what the matrix denotes.
proof fn lemma_model_at<T: Element>(matrix: &FiniteMatrix<T>, row: int, column: int)
    requires
        matrix@.well_formed(),
        0 <= row < matrix@.height,
        0 <= column < matrix@.width,
    ensures
        matrix.model().at(row, column) == matrix@.at(row, column).model(),
{
    lemma_cell_position(row, column, matrix@.height as int, matrix@.width as int);
}

/// One of the products that make up a cell of the product of two matrices.
fn term_of<T: Semiring>(
    left: &FiniteMatrix<T>,
    right: &FiniteMatrix<T>,
    row: usize,
    column: usize,
    k: usize,
) -> (term: T)
    requires
        left@.width == right@.height,
        row < left@.height,
        k < left@.width,
        column < right@.width,
        T::Multi::defined(
            left.model().at(row as int, k as int),
            right.model().at(k as int, column as int),
        ),
    ensures
        term.model() == cell_products::<T>(left.model(), right.model(), row as int, column as int)(
            k as int,
        ),
{
    let height = left.height();
    let width = right.width();
    let a = left[(row, k)].clone();
    let b = right[(k, column)].clone();
    proof {
        T::clone_keeps_model(left@.at(row as int, k as int), a);
        T::clone_keeps_model(right@.at(k as int, column as int), b);
        lemma_model_at(left, row as int, k as int);
        lemma_model_at(right, k as int, column as int);
    }
    multi(a, b)
}

/// One cell of the product of two matrices.
fn product_cell_of<T: Semiring>(
    left: &FiniteMatrix<T>,
    right: &FiniteMatrix<T>,
    row: usize,
    column: usize,
) -> (cell: T)
    requires
        left@.width == right@.height,
        row < left@.height,
        column < right@.width,
        product_cell_defined::<T>(left.model(), right.model(), row as int, column as int),
    ensures
        cell.model() == product_cell::<T>(left.model(), right.model(), row as int, column as int),
{
    let count = left.width();
    let ghost terms = cell_products::<T>(left.model(), right.model(), row as int, column as int);
    assert(count > 0) by {
        if count == 0 {
            assert(left@.height == 0);
        }
    }
    assert(T::Multi::defined(left.model().at(row as int, 0), right.model().at(0, column as int)));
    let mut sum = term_of(left, right, row, column, 0);
    let mut k: usize = 1;
    while k < count
        invariant
            1 <= k <= count,
            count == left@.width,
            left@.width == right@.height,
            row < left@.height,
            column < right@.width,
            terms == cell_products::<T>(left.model(), right.model(), row as int, column as int),
            product_cell_defined::<T>(left.model(), right.model(), row as int, column as int),
            sum.model() == series::<T>(terms, k as nat),
        decreases count - k,
    {
        proof {
            lemma_series_defined_before::<T>(terms, (k + 1) as nat, count as nat);
            assert(T::Multi::defined(
                left.model().at(row as int, k as int),
                right.model().at(k as int, column as int),
            ));
        }
        let term = term_of(left, right, row, column, k);
        sum = plus(sum, term);
        k += 1;
    }
    sum
}

impl<T: Semiring> Magma<FiniteMatrix<T>> for FiniteMatrixMul<T> {
    open spec fn defined(a: Grid<T::Model>, b: Grid<T::Model>) -> bool {
        grid_product_defined::<T>(a, b)
    }

    open spec fn apply(a: Grid<T::Model>, b: Grid<T::Model>) -> Grid<T::Model> {
        grid_product::<T>(a, b)
    }

    fn operation(operand1: FiniteMatrix<T>, operand2: FiniteMatrix<T>) -> (result: FiniteMatrix<T>) {
        let shape = Shape { height: operand1.height(), width: operand2.width() };
        if operand1.width() != operand2.height() {
            // Asked for from outside the contract, a product of matrices
            // whose inner dimensions differ stops the program.
            return vstd::pervasive::unreached();
        }
        let ghost left = operand1.model();
        let ghost right = operand2.model();
        let left_matrix = &operand1;
        let right_matrix = &operand2;
        let cell = |row: usize, column: usize| -> (cell: T)
            requires
                row < shape.height,
                column < shape.width,
            ensures
                cell.model() == product_cell::<T>(
                    left_matrix.model(),
                    right_matrix.model(),
                    row as int,
                    column as int,
                ),
            {
                assert(product_cell_defined::<T>(
                    left_matrix.model(),
                    right_matrix.model(),
                    row as int,
                    column as int,
                ));
                product_cell_of(left_matrix, right_matrix, row, column)
            };
        let result = FiniteMatrix::from_indexed_generator(shape, cell);
        proof {
            lemma_grid_product_cells::<T>(left, right);
            if shape.height == 0 || shape.width == 0 {
                lemma_grid_product_unfit::<T>(left, right);
                assert(result.model() =~= Grid::<T::Model>::empty());
            } else {
                assert forall|row: int, column: int|
                    0 <= row < left.height && 0 <= column < right.width implies #[trigger] result.model().at(
                    row,
                    column,
                ) == grid_product::<T>(left, right).at(row, column) by {
                    lemma_model_at(&result, row, column);
                    assert(call_ensures(
                        cell,
                        (row as usize, column as usize),
                        result@.at(row, column),
                    ));
                }
                lemma_grids_equal_by_cells(result.model(), grid_product::<T>(left, right));
            }
        }
        result
    }
}

/// One cell of a product of three grids, grouped either way.
proof fn lemma_product_cell_regroups<T: Distributive>(
    a: Grid<T::Model>,
    b: Grid<T::Model>,
    c: Grid<T::Model>,
    row: int,
    column: int,
)
    requires
        fit_for_product(a, b),
        fit_for_product(b, c),
        0 <= row < a.height,
        0 <= column < c.width,
    ensures
        product_cell::<T>(grid_product::<T>(a, b), c, row, column) == product_cell::<T>(
            a,
            grid_product::<T>(b, c),
            row,
            column,
        ),
{
    let ab = grid_product::<T>(a, b);
    let bc = grid_product::<T>(b, c);
    lemma_grid_product_cells::<T>(a, b);
    lemma_grid_product_cells::<T>(b, c);
    let n = a.width;
    let m = b.width;
    assert(n > 0 && m > 0);
    // The product of three cells, one of each grid.
    let triple = |k: int, l: int|
        T::Multi::apply(a.at(row, k), T::Multi::apply(b.at(k, l), c.at(l, column)));
    let over_k = |l: int| series::<T>(|k: int| triple(k, l), n);
    let over_l = |k: int| series::<T>(|l: int| triple(k, l), m);

    // (a b) c, cell by cell, is the sum over l of the sums over k.
    let left_terms = cell_products::<T>(ab, c, row, column);
    assert forall|l: int| 0 <= l < m implies #[trigger] left_terms(l) == over_k(l) by {
        let inner = cell_products::<T>(a, b, row, l);
        assert(ab.at(row, l) == series::<T>(inner, n));
        lemma_series_times_right::<T>(inner, c.at(l, column), n);
        let scaled = |k: int| T::Multi::apply(inner(k), c.at(l, column));
        let regrouped = |k: int| triple(k, l);
        assert forall|k: int| 0 <= k < n implies #[trigger] scaled(k) == regrouped(k) by {
            T::Multi::associative(a.at(row, k), b.at(k, l), c.at(l, column));
        }
        lemma_series_of_equal_terms::<T>(scaled, regrouped, n);
    }
    lemma_series_of_equal_terms::<T>(left_terms, over_k, m);

    // a (b c), cell by cell, is the sum over k of the sums over l.
    let right_terms = cell_products::<T>(a, bc, row, column);
    assert forall|k: int| 0 <= k < n implies #[trigger] right_terms(k) == over_l(k) by {
        let inner = cell_products::<T>(b, c, k, column);
        assert(bc.at(k, column) == series::<T>(inner, m));
        lemma_series_times_left::<T>(a.at(row, k), inner, m);
        let scaled = |l: int| T::Multi::apply(a.at(row, k), inner(l));
        let regrouped = |l: int| triple(k, l);
        assert forall|l: int| 0 <= l < m implies #[trigger] scaled(l) == regrouped(l) by {
        }
        lemma_series_of_equal_terms::<T>(scaled, regrouped, m);
    }
    lemma_series_of_equal_terms::<T>(right_terms, over_l, n);

    // The two orders of summation agree.
    lemma_series_exchange::<T>(triple, n, m);
    let exchanged_rows = |k: int| series::<T>(|l: int| triple(k, l), m);
    let exchanged_columns = |l: int| series::<T>(|k: int| triple(k, l), n);
    assert(series::<T>(over_l, n) == series::<T>(over_k, m));
}

impl<T: Distributive> Associative<FiniteMatrix<T>> for FiniteMatrixMul<T> {
    proof fn associative(a: Grid<T::Model>, b: Grid<T::Model>, c: Grid<T::Model>) {
        let ab = grid_product::<T>(a, b);
        let bc = grid_product::<T>(b, c);
        let left = grid_product::<T>(ab, c);
        let right = grid_product::<T>(a, bc);
        if fit_for_product(a, b) && fit_for_product(b, c) {
            lemma_grid_product_cells::<T>(a, b);
            lemma_grid_product_cells::<T>(b, c);
            lemma_grid_product_cells::<T>(ab, c);
            lemma_grid_product_cells::<T>(a, bc);
            assert forall|row: int, column: int|
                0 <= row < left.height && 0 <= column < left.width implies #[trigger] left.at(
                row,
                column,
            ) == right.at(row, column) by {
                lemma_product_cell_regroups::<T>(a, b, c, row, column);
            }
            lemma_grids_equal_by_cells(left, right);
        } else {
            if fit_for_product(a, b) {
                lemma_grid_product_cells::<T>(a, b);
            } else {
                lemma_grid_product_unfit::<T>(a, b);
            }
            if fit_for_product(b, c) {
                lemma_grid_product_cells::<T>(b, c);
            } else {
                lemma_grid_product_unfit::<T>(b, c);
            }
            lemma_grid_product_unfit::<T>(ab, c);
            lemma_grid_product_unfit::<T>(a, bc);
        }
    }
}

/// The difference of two grids, cell by cell: the left cell plus the
/// additive inverse of the right one.
pub open spec fn grid_difference<T: Semiring>(left: Grid<T::Model>, right: Grid<T::Model>) -> Grid<
    T::Model,
> where T::Sum: Invertible<T> {
    grid_sum::<T>(left, grid_negation::<T>(right))
}

/// Whether the difference of two matrices can be computed.
pub open spec fn grid_difference_defined<T: Semiring>(
    left: Grid<T::Model>,
    right: Grid<T::Model>,
) -> bool where T::Sum: Invertible<T> {
    &&& FiniteMatrixSum::<T>::invertible(right)
    &&& grid_sum_defined::<T>(left, grid_negation::<T>(right))
}

/// `left + right` is the sum of two matrices of the same shape.
impl<T: Semiring> std::ops::Add for FiniteMatrix<T> {
    type Output = FiniteMatrix<T>;

    fn add(self, rhs: Self) -> (sum: FiniteMatrix<T>)
        ensures
            sum.model() == grid_sum::<T>(self.model(), rhs.model()),
    {
        FiniteMatrixSum::operation(self, rhs)
    }
}

/// The sum is stated over what the matrices denote, by `add` itself.
impl<T: Semiring> vstd::std_specs::ops::AddSpecImpl for FiniteMatrix<T> {
    open spec fn obeys_add_spec() -> bool {
        false
    }

    open spec fn add_req(self, rhs: Self) -> bool {
        grid_sum_defined::<T>(self.model(), rhs.model())
    }

    open spec fn add_spec(self, rhs: Self) -> FiniteMatrix<T> {
        self
    }
}

/// `left - right` is the difference of two matrices of the same shape.
impl<T: Semiring> std::ops::Sub for FiniteMatrix<T> where T::Sum: Invertible<T> {
    type Output = FiniteMatrix<T>;

    fn sub(self, rhs: Self) -> (difference: FiniteMatrix<T>)
        ensures
            difference.model() == grid_difference::<T>(self.model(), rhs.model()),
    {
        FiniteMatrixSum::operation(self, FiniteMatrixSum::inverse(rhs))
    }
}

/// The difference is stated over what the matrices denote, by `sub` itself.
impl<T: Semiring> vstd::std_specs::ops::SubSpecImpl for FiniteMatrix<T> where T::Sum: Invertible<T> {
    open spec fn obeys_sub_spec() -> bool {
        false
    }

    open spec fn sub_req(self, rhs: Self) -> bool {
        grid_difference_defined::<T>(self.model(), rhs.model())
    }

    open spec fn sub_spec(self, rhs: Self) -> FiniteMatrix<T> {
        self
    }
}

/// `-matrix` is the matrix of the additive inverses of the cells.
impl<T: Semiring> std::ops::Neg for FiniteMatrix<T> where T::Sum: Invertible<T> {
    type Output = FiniteMatrix<T>;

    fn neg(self) -> (negation: FiniteMatrix<T>)
        ensures
            negation.model() == grid_negation::<T>(self.model()),
    {
        FiniteMatrixSum::inverse(self)
    }
}

/// The negation is stated over what the matrix denotes, by `neg` itself.
impl<T: Semiring> vstd::std_specs::ops::NegSpecImpl for FiniteMatrix<T> where T::Sum: Invertible<T> {
    open spec fn obeys_neg_spec() -> bool {
        false
    }

    open spec fn neg_req(self) -> bool {
        FiniteMatrixSum::<T>::invertible(self.model())
    }

    open spec fn neg_spec(self) -> FiniteMatrix<T> {
        self
    }
}

/// `left * right` is the product of two matrices whose inner dimensions
/// agree.
impl<T: Semiring> std::ops::Mul for FiniteMatrix<T> {
    type Output = FiniteMatrix<T>;

    fn mul(self, rhs: Self) -> (product: FiniteMatrix<T>)
        ensures
            product.model() == grid_product::<T>(self.model(), rhs.model()),
    {
        FiniteMatrixMul::operation(self, rhs)
    }
}

/// The product is stated over what the matrices denote, by `mul` itself.
impl<T: Semiring> vstd::std_specs::ops::MulSpecImpl for FiniteMatrix<T> {
    open spec fn obeys_mul_spec() -> bool {
        false
    }

    open spec fn mul_req(self, rhs: Self) -> bool {
        grid_product_defined::<T>(self.model(), rhs.model())
    }

    open spec fn mul_spec(self, rhs: Self) -> FiniteMatrix<T> {
        self
    }
}

} // verus!
