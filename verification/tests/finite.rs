use algebraic_structures::matrix::finite::{FiniteMatrix, Shape};

#[test]
fn print() {
    let shape = Shape { height: 2, width: 3 };
    assert_eq!(
        FiniteMatrix::<i32>::with_default(shape).to_string(),
        "0 0 0\n0 0 0\n"
    );
    assert_eq!(
        FiniteMatrix::<i32>::with_element(shape, 4).to_string(),
        "4 4 4\n4 4 4\n"
    );
    let generator = |x, y| format!("({x}, {y})");
    assert_eq!(
        FiniteMatrix::<String>::from_indexed_generator(shape, generator).to_string(),
        "(0, 0) (0, 1) (0, 2)\n(1, 0) (1, 1) (1, 2)\n"
    );
    assert_eq!(
        FiniteMatrix::<i32>::from_iter(shape, 0..6).to_string(),
        "0 1 2\n3 4 5\n"
    );
}
