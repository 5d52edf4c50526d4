use algebraic_structures::matrix::finite::{FiniteMatrix, Shape};

fn sample() -> FiniteMatrix<i32> {
    FiniteMatrix::from_iter(Shape { height: 2, width: 3 }, vec![10, 11, 12, 20, 21, 22].into_iter())
}

#[test]
fn cells_come_row_by_row() {
    let matrix = sample();
    let by_reference: Vec<&i32> = matrix.iter().collect();
    assert_eq!(by_reference, vec![&10, &11, &12, &20, &21, &22]);
    let again: Vec<&i32> = matrix.iter().collect();
    assert_eq!(again, by_reference);
    let by_value: Vec<i32> = matrix.into_iter().collect();
    assert_eq!(by_value, vec![10, 11, 12, 20, 21, 22]);
}

#[test]
fn indexes_come_row_by_row() {
    let matrix = sample();
    assert_eq!(
        matrix.indexes(),
        vec![(0, 0), (0, 1), (0, 2), (1, 0), (1, 1), (1, 2)]
    );
    assert_eq!(
        matrix.iter_with_indexes(),
        vec![
            ((0, 0), &10),
            ((0, 1), &11),
            ((0, 2), &12),
            ((1, 0), &20),
            ((1, 1), &21),
            ((1, 2), &22)
        ]
    );
    assert_eq!(
        matrix.into_iter_with_indexes(),
        vec![
            ((0, 0), 10),
            ((0, 1), 11),
            ((0, 2), 12),
            ((1, 0), 20),
            ((1, 1), 21),
            ((1, 2), 22)
        ]
    );
    let none: FiniteMatrix<i32> = FiniteMatrix::with_default(Shape { height: 0, width: 4 });
    assert_eq!(none.indexes(), Vec::new());
}

#[test]
fn mapping_keeps_the_shape() {
    let doubled = sample().map(|cell| 2 * cell);
    assert_eq!(doubled.shape(), Shape { height: 2, width: 3 });
    let cells: Vec<i32> = doubled.into_iter().collect();
    assert_eq!(cells, vec![20, 22, 24, 40, 42, 44]);

    let texts = sample().map(|cell| cell.to_string());
    assert_eq!(texts.get((1, 1)), Some(&String::from("21")));

    let placed = sample().map_with_indexes(|(row, column), cell| cell - 10 * (row as i32 + 1) - column as i32);
    assert_eq!(placed, FiniteMatrix::with_element(Shape { height: 2, width: 3 }, 0));
}

#[test]
fn cells_are_read_and_written_by_index() {
    let mut matrix = sample();
    assert_eq!(matrix[(0, 0)], 10);
    assert_eq!(matrix[(1, 2)], 22);
    assert_eq!(matrix[(1, 0)], 20);
    assert_eq!(matrix[0], 10);
    assert_eq!(matrix[3], 20);
    assert_eq!(matrix[5], 22);
    assert_eq!(matrix.flat_index((0, 0)), 0);
    assert_eq!(matrix.flat_index((0, 2)), 2);
    assert_eq!(matrix.flat_index((1, 1)), 4);
    *matrix.index_mut((1, 1)) = -1;
    assert_eq!(matrix[(1, 1)], -1);
    assert_eq!(matrix[4], -1);
    let cells: Vec<i32> = matrix.into_iter().collect();
    assert_eq!(cells, vec![10, 11, 12, 20, -1, 22]);
}

#[test]
fn a_clone_is_equal_to_its_original() {
    let matrix = sample();
    let copy = matrix.clone();
    assert_eq!(copy, matrix);
    assert_eq!(copy.shape(), matrix.shape());
}
