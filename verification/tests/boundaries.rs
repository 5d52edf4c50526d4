use algebraic_structures::matrix::finite::{FiniteMatrix, Shape};
use algebraic_structures::matrix::{matrix, Matrix};

#[test]
fn too_few_elements_make_no_matrix() {
    let shape = Shape { height: 2, width: 3 };
    assert!(FiniteMatrix::try_from_iter(shape, 0..5).is_none());
    assert!(FiniteMatrix::try_from_iter(shape, 0..0).is_none());
    let exact = FiniteMatrix::try_from_iter(shape, 0..6);
    assert!(exact.is_some());
    assert_eq!(exact.unwrap(), FiniteMatrix::from_iter(shape, 0..6));
}

#[test]
fn more_elements_than_cells_are_left_alone() {
    let shape = Shape { height: 2, width: 2 };
    let mut items = 0..10;
    let matrix = FiniteMatrix::from_iter(shape, &mut items);
    assert_eq!(matrix, FiniteMatrix::from_iter(shape, vec![0, 1, 2, 3].into_iter()));
    assert_eq!(items.next(), Some(4));
}

#[test]
fn there_is_no_cell_outside_the_shape() {
    let matrix = FiniteMatrix::from_iter(Shape { height: 2, width: 3 }, 0..6);
    assert_eq!(matrix.get((2, 0)), None);
    assert_eq!(matrix.get((0, 3)), None);
    assert_eq!(matrix.get((7, 7)), None);
    assert_eq!(matrix.get((1, 2)), Some(&5));
    assert_eq!(matrix.get((0, 0)), Some(&0));
    assert_eq!(matrix.get((1, 0)), Some(&3));
}

#[test]
fn inner_dimensions_tell_whether_a_product_exists() {
    let tall = FiniteMatrix::from_iter(Shape { height: 3, width: 2 }, 1..7);
    let wide = FiniteMatrix::from_iter(Shape { height: 2, width: 3 }, 7..13);
    assert_ne!(tall.width(), tall.clone().height());
    assert_eq!(tall.width(), wide.height());
    let product = tall * wide;
    assert_eq!(product.shape(), Shape { height: 3, width: 3 });
}

#[test]
fn a_shape_without_cells_is_the_empty_shape() {
    assert!(Shape::empty().is_empty());
    assert!(Shape { height: 0, width: 0 }.is_empty());
    assert!(!Shape { height: 3, width: 0 }.is_empty());
    assert!(!Shape { height: 0, width: 5 }.is_empty());
    assert!(!Shape { height: 1, width: 1 }.is_empty());

    let none: Vec<i32> = Vec::new();
    let flat = FiniteMatrix::from_iter(Shape { height: 3, width: 0 }, none.clone().into_iter());
    assert_eq!(flat.shape(), Shape::empty());
    assert_eq!(flat.height(), 0);
    assert_eq!(flat.width(), 0);
    assert_eq!(matrix(3, 0, none.clone()), matrix(0, 5, none.clone()));
    assert_eq!(matrix(0, 0, none.clone()), matrix(3, 0, none));
}

#[test]
fn matrices_without_cells_add_and_multiply() {
    let none: Vec<i32> = Vec::new();
    let empty = matrix(0, 0, none.clone());
    assert_eq!(empty.clone() + empty.clone(), empty);
    assert_eq!(empty.clone() * empty.clone(), empty);
    assert_eq!(Matrix::InfiniteDiagonal(3) + empty.clone(), empty);
    assert_eq!(Matrix::InfiniteDiagonal(3) * empty.clone(), empty);
    assert_eq!(-empty.clone(), empty);
}

#[test]
fn a_generator_is_called_once_for_each_cell() {
    let mut calls = 0;
    let counted = FiniteMatrix::from_generator(Shape { height: 2, width: 3 }, || {
        calls += 1;
        calls
    });
    assert_eq!(counted, FiniteMatrix::from_iter(Shape { height: 2, width: 3 }, 1..7));
    assert_eq!(calls, 6);

    let mut calls = 0;
    let none: FiniteMatrix<i32> = FiniteMatrix::from_generator(Shape { height: 4, width: 0 }, || {
        calls += 1;
        calls
    });
    assert_eq!(none.shape(), Shape::empty());
    assert_eq!(calls, 0);

    let mut order = Vec::new();
    let indexed = FiniteMatrix::from_indexed_generator(Shape { height: 2, width: 2 }, |row, column| {
        order.push((row, column));
        10 * row + column
    });
    assert_eq!(order, vec![(0, 0), (0, 1), (1, 0), (1, 1)]);
    assert_eq!(indexed, FiniteMatrix::from_iter(Shape { height: 2, width: 2 }, vec![0, 1, 10, 11].into_iter()));
}

#[test]
fn entries_of_a_diagonal_are_its_scalar_or_zero() {
    let diagonal = Matrix::InfiniteDiagonal(7);
    assert_eq!(diagonal.get((0, 0)), 7);
    assert_eq!(diagonal.get((1_000_000, 1_000_000)), 7);
    assert_eq!(diagonal.get((0, 1)), 0);
    assert_eq!(diagonal.get((5, 2)), 0);
    let finite = matrix(2, 3, vec![1, 2, 3, 4, 5, 6]);
    assert_eq!(finite.get((0, 0)), 1);
    assert_eq!(finite.get((0, 2)), 3);
    assert_eq!(finite.get((1, 0)), 4);
    assert_eq!(finite.get((1, 2)), 6);
}
