//! Dense finite matrices: a shape and as many cells, held row by row.

use vstd::prelude::*;
use vstd::std_specs::iter::IteratorSpec;
use vstd::string::{to_string_from_display_ensures, StringExecFns};
use crate::structures::basics::Element;

verus! {

/// The dimensions asked of a matrix.
#[derive(Clone, Copy, Eq, PartialEq, Debug, Hash, Structural)]
pub struct Shape {
    pub height: usize,
    pub width: usize,
}

impl Shape {
    /// The number of cells that a matrix of this shape has.
    pub open spec fn cell_count(self) -> nat {
        (self.height * self.width) as nat
    }

    /// The dimensions that a matrix made for this shape reports: a shape
    /// without cells is the empty shape, whatever its other dimension.
    pub open spec fn normalized(self) -> Shape {
        if self.height == 0 || self.width == 0 {
            Shape { height: 0, width: 0 }
        } else {
            self
        }
    }

    /// The shape of the matrix without cells.
    pub fn empty() -> (shape: Shape)
        ensures
            shape == (Shape { height: 0, width: 0 }),
    {
        Shape { height: 0, width: 0 }
    }

    /// Whether this is the empty shape, both dimensions zero.
    pub fn is_empty(&self) -> (empty: bool)
        ensures
            empty == (self.height == 0 && self.width == 0),
    {
        *self == Shape::empty()
    }
}

/// What a finite matrix holds: its dimensions and its cells in row-major
/// order.
#[verifier::ext_equal]
pub struct Grid<S> {
    pub height: nat,
    pub width: nat,
    pub cells: Seq<S>,
}

impl<S> Grid<S> {
    /// There is one cell for each pair of a row and a column, and no row
    /// or column without cells.
    pub open spec fn well_formed(self) -> bool {
        &&& self.cells.len() == self.height * self.width
        &&& (self.height == 0 <==> self.width == 0)
    }

    /// The grid without cells.
    pub open spec fn empty() -> Grid<S> {
        Grid { height: 0, width: 0, cells: Seq::empty() }
    }

    /// The cell in the given row and column.
    pub open spec fn at(self, row: int, column: int) -> S {
        self.cells[position_of(row, column, self.width as int)]
    }

    /// The grid of the same dimensions whose cells are those of this one
    /// under `f`.
    pub open spec fn map<R>(self, f: spec_fn(S) -> R) -> Grid<R> {
        Grid { height: self.height, width: self.width, cells: self.cells.map_values(f) }
    }

    /// Whether the grid has the dimensions of a matrix made for `shape`.
    pub open spec fn has_shape(self, shape: Shape) -> bool {
        &&& self.height == shape.normalized().height
        &&& self.width == shape.normalized().width
        &&& self.cells.len() == shape.cell_count()
    }
}

/// The grid that a matrix made for `shape` holds when it is filled, row by
/// row, with the first of `items`.
pub open spec fn grid_of<S>(shape: Shape, items: Seq<S>) -> Grid<S> {
    Grid {
        height: shape.normalized().height as nat,
        width: shape.normalized().width as nat,
        cells: items.take(shape.cell_count() as int),
    }
}

/// A matrix made for the shape of a grid from the cells of that grid holds
/// that grid again.
pub proof fn lemma_round_trip<S>(grid: Grid<S>)
    requires
        grid.well_formed(),
        grid.height <= usize::MAX,
        grid.width <= usize::MAX,
    ensures
        grid_of(Shape { height: grid.height as usize, width: grid.width as usize }, grid.cells)
            == grid,
{
    let shape = Shape { height: grid.height as usize, width: grid.width as usize };
    assert(grid.cells.take(shape.cell_count() as int) =~= grid.cells);
}

/// The place among the cells, held row by row in rows of `width`, of the
/// cell in the given row and column.
pub open spec fn position_of(row: int, column: int, width: int) -> int {
    row * width + column
}

/// The cell of a row and a column lies among the cells.
pub proof fn lemma_cell_position(row: int, column: int, height: int, width: int)
    by (nonlinear_arith)
    requires
        0 <= row < height,
        0 <= column < width,
    ensures
        0 <= position_of(row, column, width) < height * width,
        position_of(row, column, width) == row * width + column,
        row * width + width <= height * width,
{
}

/// Every position among the cells is that of one row and one column.
pub proof fn lemma_position_cell(position: int, height: int, width: int)
    requires
        0 <= position < height * width,
        0 < width,
    ensures
        0 <= position / width < height,
        0 <= position % width < width,
        position == (position / width) * width + position % width,
{
    vstd::arithmetic::div_mod::lemma_fundamental_div_mod(position, width);
    vstd::arithmetic::div_mod::lemma_mod_bound(position, width);
    let row = position / width;
    assert(0 <= row < height) by (nonlinear_arith)
        requires
            0 <= position < height * width,
            0 < width,
            position == width * row + position % width,
            0 <= position % width < width,
    ;
    assert(width * row == row * width) by (nonlinear_arith);
}

/// The row and the column of a cell are read off its place among the cells.
pub proof fn lemma_cell_of_position(row: int, column: int, width: int)
    requires
        0 <= column < width,
    ensures
        position_of(row, column, width) / width == row,
        position_of(row, column, width) % width == column,
{
    vstd::arithmetic::div_mod::lemma_fundamental_div_mod_converse(
        position_of(row, column, width),
        width,
        row,
        column,
    );
}

/// Well-formed grids of the same dimensions that agree in every row and
/// column are equal.
pub proof fn lemma_grids_equal_by_cells<S>(left: Grid<S>, right: Grid<S>)
    requires
        left.well_formed(),
        right.well_formed(),
        left.height == right.height,
        left.width == right.width,
        forall|row: int, column: int|
            0 <= row < left.height && 0 <= column < left.width ==> #[trigger] left.at(row, column)
                == right.at(row, column),
    ensures
        left == right,
{
    assert forall|position: int| 0 <= position < left.cells.len() implies left.cells[position]
        == right.cells[position] by {
        assert(0 < left.width) by (nonlinear_arith)
            requires
                0 <= position < left.height * left.width,
        ;
        lemma_position_cell(position, left.height as int, left.width as int);
        let row = position / (left.width as int);
        let column = position % (left.width as int);
        assert(left.at(row, column) == right.at(row, column));
    }
    assert(left.cells =~= right.cells);
}

/// Takes the next item out of an iterator that has one.
pub(crate) fn next_item<I: Iterator>(source: &mut I) -> (item: I::Item)
    requires
        (*old(source)).obeys_prophetic_iter_laws(),
        (*old(source)).remaining().len() > 0,
    ensures
        (*final(source)).obeys_prophetic_iter_laws(),
        item == (*old(source)).remaining()[0],
        (*final(source)).remaining() == (*old(source)).remaining().drop_first(),
{
    source.next().unwrap()
}

/// A matrix of `height` rows and `width` columns.
///
/// A matrix with no cells has the empty shape, so that any two of them are
/// equal.
#[derive(Eq, PartialEq, Debug, Hash)]
pub struct FiniteMatrix<T> {
    storage: Vec<T>,
    shape: Shape,
}

impl<T> View for FiniteMatrix<T> {
    type V = Grid<T>;

    closed spec fn view(&self) -> Grid<T> {
        Grid {
            height: self.shape.height as nat,
            width: self.shape.width as nat,
            cells: self.storage@,
        }
    }
}

impl<T> FiniteMatrix<T> {
    #[verifier::type_invariant]
    spec fn holds_its_cells(self) -> bool {
        self@.well_formed()
    }

    /// The number of rows.
    pub fn height(&self) -> (height: usize)
        ensures
            height == self@.height,
            self@.well_formed(),
            self@.cells.len() <= usize::MAX,
    {
        proof {
            use_type_invariant(self);
            assert(self.storage@.len() == self.storage.len());
        }
        self.shape.height
    }

    /// The number of columns.
    pub fn width(&self) -> (width: usize)
        ensures
            width == self@.width,
            self@.well_formed(),
            self@.cells.len() <= usize::MAX,
    {
        proof {
            use_type_invariant(self);
            assert(self.storage@.len() == self.storage.len());
        }
        self.shape.width
    }

    /// The dimensions.
    pub fn shape(&self) -> (shape: Shape)
        ensures
            shape.height == self@.height,
            shape.width == self@.width,
            self@.well_formed(),
            self@.cells.len() <= usize::MAX,
    {
        proof {
            use_type_invariant(self);
            assert(self.storage@.len() == self.storage.len());
        }
        self.shape
    }

    /// Fills a matrix of the given shape with what `gen` returns, calling it
    /// once for each cell.
    pub fn from_generator(shape: Shape, mut gen: impl FnMut() -> T) -> (matrix: FiniteMatrix<T>)
        requires
            shape.height * shape.width <= usize::MAX,
            shape.cell_count() > 0 ==> call_requires(gen, ()),
        ensures
            matrix@.well_formed(),
            matrix@.has_shape(shape),
            forall|position: int|
                0 <= position < matrix@.cells.len() ==> call_ensures(
                    gen,
                    (),
                    #[trigger] matrix@.cells[position],
                ),
    {
        let length = shape.height * shape.width;
        let mut storage: Vec<T> = Vec::with_capacity(length);
        let mut filled: usize = 0;
        let ghost generator = gen;
        while filled < length
            invariant
                filled <= length,
                storage@.len() == filled,
                gen == generator,
                length > 0 ==> call_requires(generator, ()),
                forall|position: int|
                    0 <= position < filled ==> call_ensures(
                        generator,
                        (),
                        #[trigger] storage@[position],
                    ),
            decreases length - filled,
        {
            storage.push(gen());
            filled += 1;
        }
        let shape = if shape.height == 0 || shape.width == 0 {
            Shape::empty()
        } else {
            shape
        };
        FiniteMatrix { storage, shape }
    }

    /// Fills a matrix of the given shape with what `gen` returns for each
    /// row and column, calling it row by row.
    pub fn from_indexed_generator(shape: Shape, mut gen: impl FnMut(usize, usize) -> T) -> (matrix:
        FiniteMatrix<T>)
        requires
            shape.height * shape.width <= usize::MAX,
            forall|row: usize, column: usize|
                row < shape.height && column < shape.width ==> call_requires(gen, (row, column)),
        ensures
            matrix@.well_formed(),
            matrix@.has_shape(shape),
            forall|row: usize, column: usize|
                row < shape.height && column < shape.width ==> call_ensures(
                    gen,
                    (row, column),
                    #[trigger] matrix@.at(row as int, column as int),
                ),
    {
        let length = shape.height * shape.width;
        let mut storage: Vec<T> = Vec::with_capacity(length);
        let ghost generator = gen;
        let mut row: usize = 0;
        while row < shape.height
            invariant
                row <= shape.height,
                shape.height * shape.width <= usize::MAX,
                storage@.len() == row * shape.width,
                gen == generator,
                forall|r: usize, c: usize|
                    r < shape.height && c < shape.width ==> call_requires(generator, (r, c)),
                forall|r: usize, c: usize|
                    r < row && c < shape.width ==> call_ensures(
                        generator,
                        (r, c),
                        #[trigger] storage@[position_of(r as int, c as int, shape.width as int)],
                    ),
            decreases shape.height - row,
        {
            let mut column: usize = 0;
            while column < shape.width
                invariant
                    row < shape.height,
                    column <= shape.width,
                    shape.height * shape.width <= usize::MAX,
                    storage@.len() == row * shape.width + column,
                    gen == generator,
                    forall|r: usize, c: usize|
                        r < shape.height && c < shape.width ==> call_requires(generator, (r, c)),
                    forall|r: usize, c: usize|
                        r < row && c < shape.width ==> call_ensures(
                            generator,
                            (r, c),
                            #[trigger] storage@[position_of(r as int, c as int, shape.width as int)],
                        ),
                    forall|c: usize|
                        c < column ==> call_ensures(
                            generator,
                            (row, c),
                            #[trigger] storage@[position_of(row as int, c as int, shape.width as int)],
                        ),
                decreases shape.width - column,
            {
                proof {
                    assert forall|r: usize, c: usize| r < row && c < shape.width implies 0
                        <= #[trigger] position_of(r as int, c as int, shape.width as int) < row
                        * shape.width by {
                        lemma_cell_position(r as int, c as int, row as int, shape.width as int);
                    }
                }
                storage.push(gen(row, column));
                column += 1;
            }
            proof {
                assert((row + 1) * shape.width == row * shape.width + shape.width)
                    by (nonlinear_arith);
            }
            row += 1;
        }
        let shape = if shape.height == 0 || shape.width == 0 {
            Shape::empty()
        } else {
            shape
        };
        FiniteMatrix { storage, shape }
    }

    /// Fills a matrix of the given shape with the first items of `iter`, row
    /// by row, or returns `None` where `iter` has too few.
    pub fn try_from_iter(shape: Shape, iter: impl Iterator<Item = T>) -> (outcome: Option<
        FiniteMatrix<T>,
    >)
        requires
            shape.height * shape.width <= usize::MAX,
            iter.obeys_prophetic_iter_laws(),
        ensures
            outcome is Some <==> shape.cell_count() <= iter.remaining().len(),
            outcome matches Some(matrix) ==> matrix@.well_formed() && matrix@ == grid_of(
                shape,
                iter.remaining(),
            ),
    {
        let length = shape.height * shape.width;
        let mut storage: Vec<T> = Vec::with_capacity(length);
        let ghost items = iter.remaining();
        let mut source = iter;
        let mut filled: usize = 0;
        while filled < length
            invariant
                filled <= length,
                length == shape.cell_count(),
                items == iter.remaining(),
                source.obeys_prophetic_iter_laws(),
                filled <= items.len(),
                source.remaining() == items.skip(filled as int),
                storage@ == items.take(filled as int),
            decreases length - filled,
        {
            match source.next() {
                Some(item) => {
                    proof {
                        assert(items.skip(filled as int).drop_first() == items.skip(filled + 1));
                        assert(items.take(filled as int).push(item) == items.take(filled + 1));
                    }
                    storage.push(item);
                    filled += 1;
                },
                None => {
                    assert(items.skip(filled as int).len() == items.len() - filled);
                    return None;
                },
            }
        }
        assert(storage@.len() == shape.height * shape.width);
        assert(shape.height == 0 || shape.width == 0 ==> shape.height * shape.width == 0)
            by (nonlinear_arith);
        let shape = if shape.height == 0 || shape.width == 0 {
            Shape::empty()
        } else {
            shape
        };
        Some(FiniteMatrix { storage, shape })
    }

    /// Fills a matrix of the given shape with the first items of `iter`, row
    /// by row.
    pub fn from_iter(shape: Shape, iter: impl Iterator<Item = T>) -> (matrix: FiniteMatrix<T>)
        requires
            shape.height * shape.width <= usize::MAX,
            iter.obeys_prophetic_iter_laws(),
            shape.cell_count() <= iter.remaining().len(),
        ensures
            matrix@.well_formed(),
            matrix@ == grid_of(shape, iter.remaining()),
    {
        Self::try_from_iter(shape, iter).unwrap()
    }

    /// The place among the cells of the cell in the given row and column.
    pub fn flat_index(&self, index: (usize, usize)) -> (position: usize)
        requires
            index.0 < self@.height,
            index.1 < self@.width,
        ensures
            position == index.0 * self@.width + index.1,
            position < self@.cells.len(),
    {
        proof {
            use_type_invariant(self);
            lemma_cell_position(
                index.0 as int,
                index.1 as int,
                self@.height as int,
                self@.width as int,
            );
        }
        let width = self.width();
        if index.0 >= self.shape.height || index.1 >= width {
            // Asked for from outside the contract, a cell that is not there
            // stops the program.
            return vstd::pervasive::unreached();
        }
        assert(width * index.0 == index.0 * width) by (nonlinear_arith);
        assert(self.storage@.len() == self.storage.len());
        let flat_index = width * index.0 + index.1;
        flat_index
    }

    /// The cell in the given row and column, or `None` where the matrix has
    /// no such cell.
    pub fn get(&self, index: (usize, usize)) -> (cell: Option<&T>)
        ensures
            cell is Some <==> index.0 < self@.height && index.1 < self@.width,
            cell matches Some(value) ==> *value == self@.at(index.0 as int, index.1 as int),
    {
        if index.0 < self.height() && index.1 < self.width() {
            let position = self.flat_index(index);
            Some(&self.storage[position])
        } else {
            None
        }
    }

    /// The cells in row-major order, by reference.
    pub fn iter(&self) -> (cells: std::slice::Iter<'_, T>)
        ensures
            cells.remaining() == self@.cells.as_ref(),
            cells.decrease() is Some,
            cells.initial_value_relation(&cells),
    {
        self.storage.iter()
    }

    fn indexes_impl(height: usize, width: usize) -> (indexes: Vec<(usize, usize)>)
        requires
            height * width <= usize::MAX,
        ensures
            indexes@.len() == height * width,
            forall|row: usize, column: usize|
                row < height && column < width ==> #[trigger] indexes@[position_of(
                    row as int,
                    column as int,
                    width as int,
                )] == (row, column),
    {
        let mut indexes: Vec<(usize, usize)> = Vec::new();
        let mut row: usize = 0;
        while row < height
            invariant
                row <= height,
                indexes@.len() == row * width,
                forall|r: usize, c: usize|
                    r < row && c < width ==> #[trigger] indexes@[position_of(
                        r as int,
                        c as int,
                        width as int,
                    )] == (r, c),
            decreases height - row,
        {
            let mut column: usize = 0;
            while column < width
                invariant
                    row < height,
                    column <= width,
                    indexes@.len() == row * width + column,
                    forall|r: usize, c: usize|
                        r < row && c < width ==> #[trigger] indexes@[position_of(
                            r as int,
                            c as int,
                            width as int,
                        )] == (r, c),
                    forall|c: usize|
                        c < column ==> #[trigger] indexes@[position_of(
                            row as int,
                            c as int,
                            width as int,
                        )] == (row, c),
                decreases width - column,
            {
                proof {
                    assert forall|r: usize, c: usize| r < row && c < width implies 0
                        <= #[trigger] position_of(r as int, c as int, width as int) < row
                        * width by {
                        lemma_cell_position(r as int, c as int, row as int, width as int);
                    }
                }
                indexes.push((row, column));
                column += 1;
            }
            proof {
                assert((row + 1) * width == row * width + width) by (nonlinear_arith);
            }
            row += 1;
        }
        indexes
    }

    /// The row and column of every cell, in row-major order.
    pub fn indexes(&self) -> (indexes: Vec<(usize, usize)>)
        ensures
            indexes@.len() == self@.cells.len(),
            forall|row: usize, column: usize|
                row < self@.height && column < self@.width ==> #[trigger] indexes@[position_of(
                    row as int,
                    column as int,
                    self@.width as int,
                )] == (row, column),
    {
        proof {
            use_type_invariant(self);
        }
        assert(self.storage@.len() == self.storage.len());
        Self::indexes_impl(self.height(), self.width())
    }

    /// Every cell by reference, each with its row and column, in row-major
    /// order.
    pub fn iter_with_indexes(&self) -> (cells: Vec<((usize, usize), &T)>)
        ensures
            cells@.len() == self@.cells.len(),
            forall|row: usize, column: usize|
                row < self@.height && column < self@.width ==> {
                    let cell = #[trigger] cells@[position_of(
                        row as int,
                        column as int,
                        self@.width as int,
                    )];
                    cell.0 == (row, column) && *cell.1 == self@.at(row as int, column as int)
                },
    {
        proof {
            use_type_invariant(self);
        }
        let height = self.shape.height;
        let width = self.shape.width;
        let mut cells: Vec<((usize, usize), &T)> = Vec::new();
        let mut row: usize = 0;
        while row < height
            invariant
                row <= height,
                height == self@.height,
                width == self@.width,
                self@.well_formed(),
                cells@.len() == row * width,
                forall|r: usize, c: usize|
                    r < row && c < width ==> {
                        let cell = #[trigger] cells@[position_of(r as int, c as int, width as int)];
                        cell.0 == (r, c) && *cell.1 == self@.at(r as int, c as int)
                    },
            decreases height - row,
        {
            let mut column: usize = 0;
            while column < width
                invariant
                    row < height,
                    column <= width,
                    height == self@.height,
                    width == self@.width,
                    self@.well_formed(),
                    cells@.len() == row * width + column,
                    forall|r: usize, c: usize|
                        r < row && c < width ==> {
                            let cell = #[trigger] cells@[position_of(
                                r as int,
                                c as int,
                                width as int,
                            )];
                            cell.0 == (r, c) && *cell.1 == self@.at(r as int, c as int)
                        },
                    forall|c: usize|
                        c < column ==> {
                            let cell = #[trigger] cells@[position_of(
                                row as int,
                                c as int,
                                width as int,
                            )];
                            cell.0 == (row, c) && *cell.1 == self@.at(row as int, c as int)
                        },
                decreases width - column,
            {
                proof {
                    assert forall|r: usize, c: usize| r < row && c < width implies 0
                        <= #[trigger] position_of(r as int, c as int, width as int) < row
                        * width by {
                        lemma_cell_position(r as int, c as int, row as int, width as int);
                    }
                    lemma_cell_position(row as int, column as int, height as int, width as int);
                    assert(self@.cells.len() == self.storage.len());
                    assert(0 <= row * width) by (nonlinear_arith);
                }
                cells.push(((row, column), &self.storage[row * width + column]));
                column += 1;
            }
            proof {
                assert((row + 1) * width == row * width + width) by (nonlinear_arith);
            }
            row += 1;
        }
        proof {
            assert(height * width == row * width);
        }
        cells
    }

    /// Applies `f` to every cell together with its row and column, in
    /// row-major order, and keeps the shape.
    pub fn map_with_indexes<R>(self, f: impl Fn((usize, usize), T) -> R) -> (mapped: FiniteMatrix<R>)
        requires
            forall|row: usize, column: usize|
                row < self@.height && column < self@.width ==> call_requires(
                    f,
                    ((row, column), #[trigger] self@.at(row as int, column as int)),
                ),
        ensures
            mapped@.well_formed(),
            mapped@.height == self@.height,
            mapped@.width == self@.width,
            forall|row: usize, column: usize|
                row < self@.height && column < self@.width ==> call_ensures(
                    f,
                    ((row, column), self@.at(row as int, column as int)),
                    #[trigger] mapped@.at(row as int, column as int),
                ),
    {
        proof {
            use_type_invariant(&self);
        }
        let ghost grid = self@;
        let height = self.shape.height;
        let width = self.shape.width;
        let shape = self.shape;
        let mut source = self.storage.into_iter();
        let mut storage: Vec<R> = Vec::new();
        let mut row: usize = 0;
        while row < height
            invariant
                row <= height,
                height == grid.height,
                width == grid.width,
                grid.well_formed(),
                storage@.len() == row * width,
                source.remaining() == grid.cells.skip(row * width),
                forall|r: usize, c: usize|
                    r < height && c < width ==> call_requires(
                        f,
                        ((r, c), #[trigger] grid.at(r as int, c as int)),
                    ),
                forall|r: usize, c: usize|
                    r < row && c < width ==> call_ensures(
                        f,
                        ((r, c), grid.at(r as int, c as int)),
                        #[trigger] storage@[position_of(r as int, c as int, width as int)],
                    ),
            decreases height - row,
        {
            let mut column: usize = 0;
            while column < width
                invariant
                    row < height,
                    column <= width,
                    height == grid.height,
                    width == grid.width,
                    grid.well_formed(),
                    storage@.len() == row * width + column,
                    source.remaining() == grid.cells.skip(row * width + column),
                    forall|r: usize, c: usize|
                        r < height && c < width ==> call_requires(
                            f,
                            ((r, c), #[trigger] grid.at(r as int, c as int)),
                        ),
                    forall|r: usize, c: usize|
                        r < row && c < width ==> call_ensures(
                            f,
                            ((r, c), grid.at(r as int, c as int)),
                            #[trigger] storage@[position_of(r as int, c as int, width as int)],
                        ),
                    forall|c: usize|
                        c < column ==> call_ensures(
                            f,
                            ((row, c), grid.at(row as int, c as int)),
                            #[trigger] storage@[position_of(row as int, c as int, width as int)],
                        ),
                decreases width - column,
            {
                proof {
                    assert forall|r: usize, c: usize| r < row && c < width implies 0
                        <= #[trigger] position_of(r as int, c as int, width as int) < row
                        * width by {
                        lemma_cell_position(r as int, c as int, row as int, width as int);
                    }
                    lemma_cell_position(row as int, column as int, height as int, width as int);
                    assert(grid.cells.skip(row * width + column).drop_first()
                        == grid.cells.skip(row * width + column + 1));
                }
                let cell = next_item(&mut source);
                assert(cell == grid.at(row as int, column as int));
                storage.push(f((row, column), cell));
                column += 1;
            }
            proof {
                assert((row + 1) * width == row * width + width) by (nonlinear_arith);
            }
            row += 1;
        }
        proof {
            assert(height * width == row * width);
        }
        FiniteMatrix { storage, shape }
    }

    /// Applies `f` to every cell, in row-major order, and keeps the shape.
    pub fn map<R>(self, f: impl Fn(T) -> R) -> (mapped: FiniteMatrix<R>)
        requires
            forall|position: int|
                0 <= position < self@.cells.len() ==> call_requires(
                    f,
                    (#[trigger] self@.cells[position],),
                ),
        ensures
            mapped@.well_formed(),
            mapped@.height == self@.height,
            mapped@.width == self@.width,
            mapped@.cells.len() == self@.cells.len(),
            forall|position: int|
                0 <= position < self@.cells.len() ==> call_ensures(
                    f,
                    (self@.cells[position],),
                    #[trigger] mapped@.cells[position],
                ),
    {
        proof {
            use_type_invariant(&self);
        }
        let ghost grid = self@;
        let shape = self.shape;
        let length = self.storage.len();
        let mut source = self.storage.into_iter();
        let mut storage: Vec<R> = Vec::new();
        let mut done: usize = 0;
        while done < length
            invariant
                done <= length,
                length == grid.cells.len(),
                storage@.len() == done,
                source.remaining() == grid.cells.skip(done as int),
                forall|position: int|
                    0 <= position < grid.cells.len() ==> call_requires(
                        f,
                        (#[trigger] grid.cells[position],),
                    ),
                forall|position: int|
                    0 <= position < done ==> call_ensures(
                        f,
                        (grid.cells[position],),
                        #[trigger] storage@[position],
                    ),
            decreases length - done,
        {
            proof {
                assert(grid.cells.skip(done as int).drop_first() == grid.cells.skip(done + 1));
            }
            let cell = next_item(&mut source);
            assert(cell == grid.cells[done as int]);
            storage.push(f(cell));
            done += 1;
        }
        FiniteMatrix { storage, shape }
    }

    /// Every cell by value, each with its row and column, in row-major
    /// order.
    pub fn into_iter_with_indexes(self) -> (cells: Vec<((usize, usize), T)>)
        ensures
            cells@.len() == self@.cells.len(),
            forall|row: usize, column: usize|
                row < self@.height && column < self@.width ==> #[trigger] cells@[position_of(
                    row as int,
                    column as int,
                    self@.width as int,
                )] == ((row, column), self@.at(row as int, column as int)),
    {
        proof {
            use_type_invariant(&self);
        }
        let ghost grid = self@;
        let pair = |index: (usize, usize), cell: T| -> (pair: ((usize, usize), T))
            ensures
                pair == (index, cell),
            { (index, cell) };
        let paired = self.map_with_indexes(pair);
        proof {
            use_type_invariant(&paired);
            assert forall|row: usize, column: usize|
                row < grid.height && column < grid.width implies #[trigger] paired@.cells[position_of(
                row as int,
                column as int,
                grid.width as int,
            )] == ((row, column), grid.at(row as int, column as int)) by {
                assert(call_ensures(
                    pair,
                    ((row, column), grid.at(row as int, column as int)),
                    paired@.at(row as int, column as int),
                ));
            }
        }
        paired.storage
    }
}

impl<T: Clone> FiniteMatrix<T> {
    /// A matrix of the given shape with a clone of `element` in every cell.
    pub fn with_element(shape: Shape, element: T) -> (matrix: FiniteMatrix<T>)
        requires
            shape.height * shape.width <= usize::MAX,
        ensures
            matrix@.well_formed(),
            matrix@.has_shape(shape),
            forall|position: int|
                0 <= position < matrix@.cells.len() ==> cloned(
                    element,
                    #[trigger] matrix@.cells[position],
                ),
    {
        let original = &element;
        let copy = || -> (copy: T)
            ensures
                cloned(*original, copy),
            { original.clone() };
        Self::from_generator(shape, copy)
    }
}

impl<T: Default> FiniteMatrix<T> {
    /// A matrix of the given shape with the default value of `T` in every
    /// cell.
    pub fn with_default(shape: Shape) -> (matrix: FiniteMatrix<T>)
        requires
            shape.height * shape.width <= usize::MAX,
        ensures
            matrix@.well_formed(),
            matrix@.has_shape(shape),
            forall|position: int|
                0 <= position < matrix@.cells.len() ==> call_ensures(
                    T::default,
                    (),
                    #[trigger] matrix@.cells[position],
                ),
    {
        Self::from_generator(shape, T::default)
    }
}

impl<T> std::iter::IntoIterator for FiniteMatrix<T> {
    type Item = T;

    type IntoIter = std::vec::IntoIter<T>;

    /// The cells in row-major order, by value.
    fn into_iter(self) -> (cells: std::vec::IntoIter<T>)
        ensures
            cells.remaining() == self@.cells,
            cells.decrease() is Some,
            cells.initial_value_relation(&cells),
    {
        self.storage.into_iter()
    }
}

/// Whether `copy` is a grid of the same dimensions that holds a clone of
/// every cell of `original`.
pub open spec fn grid_cloned<T: Clone>(original: Grid<T>, copy: Grid<T>) -> bool {
    &&& copy.height == original.height
    &&& copy.width == original.width
    &&& copy.cells.len() == original.cells.len()
    &&& forall|position: int|
        0 <= position < original.cells.len() ==> cloned(
            original.cells[position],
            #[trigger] copy.cells[position],
        )
}

impl<T: Clone> Clone for FiniteMatrix<T> {
    /// A matrix of the same shape with a clone of every cell.
    fn clone(&self) -> (copy: Self)
        ensures
            copy@.well_formed(),
            grid_cloned(self@, copy@),
    {
        proof {
            use_type_invariant(self);
        }
        FiniteMatrix { storage: self.storage.clone(), shape: self.shape }
    }
}

impl<T> std::ops::Index<usize> for FiniteMatrix<T> {
    type Output = T;

    /// The cell at the given place in row-major order.
    fn index(&self, index: usize) -> (cell: &T)
        ensures
            *cell == self@.cells[index as int],
    {
        &self.storage[index]
    }
}

/// A place in row-major order must be one of a cell.
impl<T> vstd::std_specs::core::IndexSpecImpl<usize> for FiniteMatrix<T> {
    open spec fn index_req(&self, index: &usize) -> bool {
        *index < self@.cells.len()
    }
}

impl<T> std::ops::Index<(usize, usize)> for FiniteMatrix<T> {
    type Output = T;

    /// The cell in the given row and column.
    fn index(&self, index: (usize, usize)) -> (cell: &T)
        ensures
            *cell == self@.at(index.0 as int, index.1 as int),
    {
        &self.storage[self.flat_index(index)]
    }
}

/// A row and a column must be those of a cell.
impl<T> vstd::std_specs::core::IndexSpecImpl<(usize, usize)> for FiniteMatrix<T> {
    open spec fn index_req(&self, index: &(usize, usize)) -> bool {
        index.0 < self@.height && index.1 < self@.width
    }
}

impl<T> FiniteMatrix<T> {
    /// The cell in the given row and column, to be written.
    pub fn index_mut(&mut self, index: (usize, usize)) -> (cell: &mut T)
        requires
            index.0 < old(self)@.height,
            index.1 < old(self)@.width,
        ensures
            *cell == old(self)@.at(index.0 as int, index.1 as int),
            final(self)@.well_formed(),
            final(self)@.height == old(self)@.height,
            final(self)@.width == old(self)@.width,
            final(self)@.cells == old(self)@.cells.update(
                position_of(index.0 as int, index.1 as int, old(self)@.width as int),
                *final(cell),
            ),
    {
        proof {
            use_type_invariant(&*self);
        }
        let position = self.flat_index(index);
        &mut self.storage[position]
    }

    /// The cell at the given place in row-major order, to be written.
    pub fn index_mut_flat(&mut self, position: usize) -> (cell: &mut T)
        requires
            position < old(self)@.cells.len(),
        ensures
            *cell == old(self)@.cells[position as int],
            final(self)@.well_formed(),
            final(self)@.height == old(self)@.height,
            final(self)@.width == old(self)@.width,
            final(self)@.cells == old(self)@.cells.update(position as int, *final(cell)),
    {
        proof {
            use_type_invariant(&*self);
        }
        &mut self.storage[position]
    }
}

/// A matrix over elements denotes the grid of what its cells denote.
impl<T: Element> Element for FiniteMatrix<T> {
    type Model = Grid<T::Model>;

    open spec fn model(&self) -> Grid<T::Model> {
        self@.map(|cell: T| cell.model())
    }

    proof fn clone_keeps_model(original: Self, copy: Self) {
        assert forall|position: int| 0 <= position < original@.cells.len() implies (
        #[trigger] copy@.cells[position]).model() == original@.cells[position].model() by {
            T::clone_keeps_model(original@.cells[position], copy@.cells[position]);
        }
        assert(copy.model() =~= original.model());
    }
}

/// The texts of the cells of a matrix laid out in its rows: a space after
/// each text, but a line feed after the last of each row.
pub open spec fn laid_out(texts: Seq<Seq<char>>, width: nat) -> Seq<char>
    decreases texts.len(),
{
    if texts.len() == 0 {
        Seq::empty()
    } else {
        let end = if width > 0 && (texts.len() as int) % (width as int) == 0 {
            seq!['\n']
        } else {
            seq![' ']
        };
        laid_out(texts.drop_last(), width) + texts.last() + end
    }
}

/// Counting on by one within rows of `width` goes to the next column, or
/// from the last column to the first.
proof fn lemma_next_column(done: int, width: int)
    requires
        0 <= done,
        0 < width,
    ensures
        (done + 1) % width == if done % width + 1 == width {
            0
        } else {
            done % width + 1
        },
{
    vstd::arithmetic::div_mod::lemma_fundamental_div_mod(done, width);
    vstd::arithmetic::div_mod::lemma_mod_bound(done, width);
    let quotient = done / width;
    let column = done % width;
    if column + 1 == width {
        assert(done + 1 == (quotient + 1) * width + 0) by (nonlinear_arith)
            requires
                done == width * quotient + column,
                column + 1 == width,
        ;
        vstd::arithmetic::div_mod::lemma_fundamental_div_mod_converse(
            done + 1,
            width,
            quotient + 1,
            0,
        );
    } else {
        assert(done + 1 == quotient * width + (column + 1)) by (nonlinear_arith)
            requires
                done == width * quotient + column,
        ;
        vstd::arithmetic::div_mod::lemma_fundamental_div_mod_converse(
            done + 1,
            width,
            quotient,
            column + 1,
        );
    }
}

/// Lays out the texts of the cells of a matrix with rows of `width` cells.
pub fn layout(texts: &Vec<String>, width: usize) -> (text: String)
    ensures
        text@ == laid_out(texts@.map_values(|cell: String| cell@), width as nat),
{
    let ghost views = texts@.map_values(|cell: String| cell@);
    let mut text = String::new();
    let mut column: usize = 0;
    let mut done: usize = 0;
    while done < texts.len()
        invariant
            done <= texts.len(),
            views == texts@.map_values(|cell: String| cell@),
            width > 0 ==> column == (done as int) % (width as int),
            width == 0 ==> column == done,
            text@ == laid_out(views.take(done as int), width as nat),
        decreases texts.len() - done,
    {
        proof {
            reveal_strlit("\n");
            reveal_strlit(" ");
            assert(views.take(done + 1).drop_last() == views.take(done as int));
            if width > 0 {
                lemma_next_column(done as int, width as int);
            }
        }
        text.append(texts[done].as_str());
        column += 1;
        if column == width {
            text.append("\n");
            column = 0;
        } else {
            text.append(" ");
        }
        assert("\n"@ == seq!['\n'] && " "@ == seq![' ']);
        done += 1;
    }
    proof {
        assert(views.take(done as int) == views);
    }
    text
}

/// Whether `text` is the grid as text: the cells as they display
/// themselves, laid out in the rows of the grid.
pub open spec fn displays_as<T: std::fmt::Display>(grid: Grid<T>, text: Seq<char>) -> bool {
    exists|texts: Seq<String>|
        {
            &&& texts.len() == grid.cells.len()
            &&& forall|position: int|
                0 <= position < texts.len() ==> to_string_from_display_ensures::<T>(
                    &grid.cells[position],
                    #[trigger] texts[position],
                )
            &&& text == laid_out(texts.map_values(|cell: String| cell@), grid.width)
        }
}

impl<T: std::fmt::Display> FiniteMatrix<T> {
    /// The matrix as text: the cells as they display themselves, each row
    /// on a line of its own, the cells of a row with a space after each but
    /// the last.
    pub fn to_string(&self) -> (text: String)
        ensures
            displays_as(self@, text@),
    {
        let mut texts: Vec<String> = Vec::new();
        let mut done: usize = 0;
        while done < self.storage.len()
            invariant
                done <= self.storage.len(),
                texts@.len() == done,
                forall|position: int|
                    0 <= position < done ==> to_string_from_display_ensures::<T>(
                        &self.storage@[position],
                        #[trigger] texts@[position],
                    ),
            decreases self.storage.len() - done,
        {
            texts.push(self.storage[done].to_string());
            done += 1;
        }
        let text = layout(&texts, self.shape.width);
        proof {
            let witness = texts@;
            assert(witness.len() == self@.cells.len());
            assert(text@ == laid_out(witness.map_values(|cell: String| cell@), self@.width));
        }
        text
    }
}

} // verus!
