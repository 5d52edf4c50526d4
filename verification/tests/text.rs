use algebraic_structures::matrix::finite::{layout, FiniteMatrix, Shape};
use algebraic_structures::matrix::{matrix, Matrix};

#[test]
fn a_diagonal_is_written_in_braces() {
    assert_eq!(Matrix::InfiniteDiagonal(5).to_string(), "Diagonal {5}\n");
    assert_eq!(Matrix::InfiniteDiagonal(-12i64).to_string(), "Diagonal {-12}\n");
}

#[test]
fn a_finite_matrix_is_written_in_rows() {
    assert_eq!(matrix(2, 2, vec![1, 2, 3, 4]).to_string(), "1 2\n3 4\n");
    assert_eq!(matrix(1, 3, vec![1, 2, 3]).to_string(), "1 2 3\n");
    assert_eq!(matrix(3, 1, vec![1, 2, 3]).to_string(), "1\n2\n3\n");
    let none: Vec<i32> = Vec::new();
    assert_eq!(matrix(0, 0, none).to_string(), "");
    assert_eq!(
        FiniteMatrix::<i32>::with_default(Shape { height: 0, width: 3 }).to_string(),
        ""
    );
}

#[test]
fn texts_are_laid_out_in_rows() {
    let texts = vec![String::from("a"), String::from("bb"), String::from(""), String::from("d")];
    assert_eq!(layout(&texts, 2), "a bb\n d\n");
    assert_eq!(layout(&texts, 4), "a bb  d\n");
    assert_eq!(layout(&texts, 3), "a bb \nd ");
    assert_eq!(layout(&texts, 1), "a\nbb\n\nd\n");
    assert_eq!(layout(&texts, 0), "a bb  d ");
    assert_eq!(layout(&Vec::new(), 3), "");
}
