use algebraic_structures::fibonacci::fibonacci;
use algebraic_structures::matrix::finite::{FiniteMatrix, Shape};
use algebraic_structures::matrix::{matrix, Matrix};
use algebraic_structures::power::unsigned::pow;
use algebraic_structures::structures::ring_like::{multi, one, plus, zero};

fn tall() -> Matrix<i32> {
    matrix(3, 2, vec![1, 2, 3, 4, 5, 6])
}

fn tall_too() -> Matrix<i32> {
    matrix(3, 2, vec![7, 8, 9, 10, 11, 12])
}

fn tall_again() -> Matrix<i32> {
    matrix(3, 2, vec![-1, 0, 4, -9, 2, 2])
}

fn wide() -> Matrix<i32> {
    matrix(2, 3, vec![7, 8, 9, 10, 11, 12])
}

#[test]
fn addition_may_be_swapped_and_regrouped() {
    assert_eq!(plus(tall(), tall_too()), plus(tall_too(), tall()));
    assert_eq!(
        plus(plus(tall(), tall_too()), tall_again()),
        plus(tall(), plus(tall_too(), tall_again()))
    );
    assert_eq!(
        plus(plus(tall(), tall_too()), tall_again()),
        matrix(3, 2, vec![7, 10, 16, 5, 18, 20])
    );
}

#[test]
fn multiplication_may_be_regrouped() {
    let left = multi(multi(tall(), wide()), tall_again());
    let right = multi(tall(), multi(wide(), tall_again()));
    assert_eq!(left, right);
    assert_eq!(left, matrix(3, 2, vec![159, -204, 361, -462, 563, -720]));
}

#[test]
fn a_diagonal_scales_a_finite_matrix() {
    let cells = vec![1, 2, 3, 4, 5, 6, 7, 8, 9];
    let scaled = matrix(3, 3, vec![2, 4, 6, 8, 10, 12, 14, 16, 18]);
    let twice = matrix(3, 3, vec![2, 0, 0, 0, 2, 0, 0, 0, 2]);
    assert_eq!(Matrix::InfiniteDiagonal(2) * matrix(3, 3, cells.clone()), scaled);
    assert_eq!(matrix(3, 3, cells.clone()) * Matrix::InfiniteDiagonal(2), scaled);
    assert_eq!(twice.clone() * matrix(3, 3, cells.clone()), scaled);
    assert_eq!(matrix(3, 3, cells) * twice, scaled);
}

#[test]
fn a_diagonal_is_added_to_the_main_diagonal_only() {
    let cells = vec![1, 2, 3, 4, 5, 6, 7, 8, 9];
    let raised = matrix(3, 3, vec![11, 2, 3, 4, 15, 6, 7, 8, 19]);
    let tens = matrix(3, 3, vec![10, 0, 0, 0, 10, 0, 0, 0, 10]);
    assert_eq!(Matrix::InfiniteDiagonal(10) + matrix(3, 3, cells.clone()), raised);
    assert_eq!(matrix(3, 3, cells.clone()) + Matrix::InfiniteDiagonal(10), raised);
    assert_eq!(tens + matrix(3, 3, cells), raised);
    assert_eq!(
        Matrix::InfiniteDiagonal(10) + tall(),
        matrix(3, 2, vec![11, 2, 3, 14, 5, 6])
    );
}

#[test]
fn diagonals_combine_to_diagonals() {
    assert_eq!(
        Matrix::InfiniteDiagonal(2) + Matrix::InfiniteDiagonal(3),
        Matrix::InfiniteDiagonal(5)
    );
    assert_eq!(
        Matrix::InfiniteDiagonal(2) * Matrix::InfiniteDiagonal(3),
        Matrix::InfiniteDiagonal(6)
    );
    assert_eq!(
        Matrix::InfiniteDiagonal(2) - Matrix::InfiniteDiagonal(3),
        Matrix::InfiniteDiagonal(-1)
    );
    assert_eq!(-Matrix::InfiniteDiagonal(2), Matrix::InfiniteDiagonal(-2));
}

#[test]
fn subtraction_with_a_diagonal_touches_the_main_diagonal_only() {
    assert_eq!(
        Matrix::InfiniteDiagonal(10) - matrix(2, 2, vec![1, 2, 3, 4]),
        matrix(2, 2, vec![9, 2, 3, 6])
    );
    assert_eq!(
        matrix(2, 2, vec![1, 2, 3, 4]) - Matrix::InfiniteDiagonal(10),
        matrix(2, 2, vec![-9, 2, 3, -6])
    );
}

#[test]
fn each_fibonacci_number_is_the_sum_of_the_two_before() {
    for index in 0..60u64 {
        assert_eq!(
            fibonacci::<i64>(index + 1) + fibonacci::<i64>(index),
            fibonacci::<i64>(index + 2)
        );
    }
    assert_eq!(fibonacci::<i64>(50), 12_586_269_025);
    assert_eq!(fibonacci::<i32>(46), 1_836_311_903);
}

#[test]
fn a_matrix_is_rebuilt_from_its_cells() {
    let shape = Shape { height: 2, width: 3 };
    let original = FiniteMatrix::from_iter(shape, vec![5, 4, 3, 2, 1, 0].into_iter());
    let rebuilt = FiniteMatrix::from_iter(original.shape(), original.clone().into_iter());
    assert_eq!(rebuilt, original);
    let empty: FiniteMatrix<i32> = FiniteMatrix::from_iter(Shape::empty(), Vec::new().into_iter());
    assert_eq!(
        FiniteMatrix::from_iter(empty.shape(), empty.clone().into_iter()),
        empty
    );
}

#[test]
fn powers_multiply_the_base_by_itself() {
    assert_eq!(pow(3, 5), 243);
    assert_eq!(pow(-2, 3), -8);
    assert_eq!(pow(7, 1), 7);
    assert_eq!(pow(0, 0), 1);
    assert_eq!(pow(0, 9), 0);
    assert_eq!(pow(2i64, 62), 1 << 62);
    for exponent in 0..20u64 {
        assert_eq!(pow(3i64, exponent) * pow(3i64, 7), pow(3i64, exponent + 7));
    }
    let step = matrix(2, 2, vec![0i64, 1, 1, 1]);
    assert_eq!(pow(step.clone(), 0), Matrix::InfiniteDiagonal(1));
    assert_eq!(pow(step, 10), matrix(2, 2, vec![34, 55, 55, 89]));
}

#[test]
fn matrices_have_their_identities() {
    assert_eq!(zero::<Matrix<i32>>(), Matrix::InfiniteDiagonal(0));
    assert_eq!(one::<Matrix<i32>>(), Matrix::InfiniteDiagonal(1));
    assert_eq!(plus(zero(), tall()), tall());
    assert_eq!(plus(tall(), zero()), tall());
    assert_eq!(multi(one(), wide()), wide());
    assert_eq!(multi(wide(), one()), wide());
    assert_eq!(multi(zero(), wide()), matrix(2, 3, vec![0, 0, 0, 0, 0, 0]));
}
