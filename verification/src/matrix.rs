//! The matrix value type: a dense finite matrix, or a scalar spread over the
//! diagonal of a square matrix without bounds.

use vstd::prelude::*;
use vstd::std_specs::iter::IteratorSpec;
use vstd::string::{to_string_from_display_ensures, StringExecFns};
pub use crate::matrix::finite::FiniteMatrix;
use crate::matrix::finite::{displays_as, grid_cloned, grid_of, Grid, Shape};
use crate::structures::basics::{Element, WithIdentityElement};
use crate::structures::ring_like::{zero, Semiring};

pub mod finite;

verus! {

/// A matrix.
///
/// `InfiniteDiagonal(d)` stands for `d` times the identity matrix of
/// whatever size it meets: it holds a scalar, the zero or the identity
/// without a grid of cells.
#[derive(Eq, PartialEq, Debug, Hash)]
pub enum Matrix<T> {
    InfiniteDiagonal(T),
    Finite(FiniteMatrix<T>),
}

/// What a matrix holds: the scalar on its diagonal, or a grid.
#[verifier::ext_equal]
pub enum MatrixValue<S> {
    Diagonal(S),
    Finite(Grid<S>),
}

impl<S> MatrixValue<S> {
    /// The value of the same form whose scalar or cells are those of this
    /// one under `f`.
    pub open spec fn map<R>(self, f: spec_fn(S) -> R) -> MatrixValue<R> {
        match self {
            MatrixValue::Diagonal(scalar) => MatrixValue::Diagonal(f(scalar)),
            MatrixValue::Finite(grid) => MatrixValue::Finite(grid.map(f)),
        }
    }
}

impl<T> View for Matrix<T> {
    type V = MatrixValue<T>;

    open spec fn view(&self) -> MatrixValue<T> {
        match self {
            Matrix::InfiniteDiagonal(scalar) => MatrixValue::Diagonal(*scalar),
            Matrix::Finite(matrix) => MatrixValue::Finite(matrix@),
        }
    }
}

/// Whether `copy` is a matrix of the same form that holds a clone of the
/// scalar or of every cell of `original`.
pub open spec fn matrix_cloned<T: Clone>(original: MatrixValue<T>, copy: MatrixValue<T>) -> bool {
    match (original, copy) {
        (MatrixValue::Diagonal(scalar), MatrixValue::Diagonal(copied)) => cloned(scalar, copied),
        (MatrixValue::Finite(grid), MatrixValue::Finite(copied)) => grid_cloned(grid, copied),
        _ => false,
    }
}

impl<T: Clone> Clone for Matrix<T> {
    /// A matrix of the same form with a clone of its scalar or of every cell.
    fn clone(&self) -> (copy: Self)
        ensures
            matrix_cloned(self@, copy@),
    {
        match self {
            Matrix::InfiniteDiagonal(scalar) => Matrix::InfiniteDiagonal(scalar.clone()),
            Matrix::Finite(matrix) => Matrix::Finite(matrix.clone()),
        }
    }
}

/// A matrix over elements denotes the scalar or the grid of what it holds
/// denotes.
impl<T: Element> Element for Matrix<T> {
    type Model = MatrixValue<T::Model>;

    open spec fn model(&self) -> MatrixValue<T::Model> {
        self@.map(|cell: T| cell.model())
    }

    proof fn clone_keeps_model(original: Self, copy: Self) {
        match (original, copy) {
            (Matrix::InfiniteDiagonal(scalar), Matrix::InfiniteDiagonal(copied)) => {
                T::clone_keeps_model(scalar, copied);
            },
            (Matrix::Finite(matrix), Matrix::Finite(copied)) => {
                assert forall|position: int| 0 <= position < matrix@.cells.len() implies (
                #[trigger] copied@.cells[position]).model() == matrix@.cells[position].model() by {
                    T::clone_keeps_model(matrix@.cells[position], copied@.cells[position]);
                }
                assert(copy.model() =~= original.model());
            },
            _ => {},
        }
    }
}

/// The entry of a matrix in the given row and column: on the diagonal of an
/// unbounded diagonal matrix its scalar, off the diagonal the additive
/// identity; in a grid the cell.
pub open spec fn matrix_entry<T: Semiring>(matrix: MatrixValue<T::Model>, row: int, column: int) -> T::Model {
    match matrix {
        MatrixValue::Diagonal(scalar) => if row == column {
            scalar
        } else {
            T::Sum::identity_model()
        },
        MatrixValue::Finite(grid) => grid.at(row, column),
    }
}

/// The finite matrix of `height` rows and `width` columns that holds the
/// first items of `flat_data`, row by row.
pub fn matrix<T>(height: usize, width: usize, flat_data: Vec<T>) -> (matrix: Matrix<T>)
    requires
        height * width <= flat_data.len(),
    ensures
        matrix@ == MatrixValue::Finite(grid_of(Shape { height, width }, flat_data@)),
        grid_of(Shape { height, width }, flat_data@).well_formed(),
{
    Matrix::Finite(FiniteMatrix::from_iter(Shape { height, width }, flat_data.into_iter()))
}

impl<T: Semiring + Clone> Matrix<T> {
    /// The entry in the given row and column.
    pub fn get(&self, index: (usize, usize)) -> (entry: T)
        requires
            self@ matches MatrixValue::Finite(grid) ==> index.0 < grid.height && index.1
                < grid.width,
        ensures
            entry.model() == matrix_entry::<T>(self.model(), index.0 as int, index.1 as int),
    {
        match self {
            Matrix::InfiniteDiagonal(scalar) => if index.0 == index.1 {
                let entry = scalar.clone();
                proof {
                    T::clone_keeps_model(*scalar, entry);
                }
                entry
            } else {
                zero()
            },
            Matrix::Finite(matrix) => {
                // The getters tell that the matrix is well formed.
                let height = matrix.height();
                let entry = matrix[index].clone();
                proof {
                    T::clone_keeps_model(matrix@.at(index.0 as int, index.1 as int), entry);
                    crate::matrix::finite::lemma_cell_position(
                        index.0 as int,
                        index.1 as int,
                        matrix@.height as int,
                        matrix@.width as int,
                    );
                }
                entry
            },
        }
    }
}

/// Whether `text` is the unbounded diagonal matrix of the scalar as text:
/// the word `Diagonal` and the scalar, as it displays itself, in braces on
/// a line.
pub open spec fn diagonal_displays_as<T: std::fmt::Display>(scalar: T, text: Seq<char>) -> bool {
    exists|inner: String|
        to_string_from_display_ensures::<T>(&scalar, inner) && text == "Diagonal {"@ + inner@
            + "}\n"@
}

impl<T: std::fmt::Display> Matrix<T> {
    /// The matrix as text: a finite matrix as its rows, an unbounded
    /// diagonal matrix as the word `Diagonal` and its scalar in braces on a
    /// line.
    pub fn to_string(&self) -> (text: String)
        ensures
            match self@ {
                MatrixValue::Diagonal(scalar) => diagonal_displays_as(scalar, text@),
                MatrixValue::Finite(grid) => displays_as(grid, text@),
            },
    {
        match self {
            Matrix::InfiniteDiagonal(value) => {
                let inner = value.to_string();
                let mut text = String::from_str("Diagonal {");
                text.append(inner.as_str());
                text.append("}\n");
                text
            },
            Matrix::Finite(regular) => regular.to_string(),
        }
    }
}

} // verus!
