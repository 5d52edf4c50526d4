use algebraic_structures::structures::ring_like::plus;

#[test]
fn lib_it_works() {
    let result = 2 + 2;
    assert_eq!(result, 4);
    assert_eq!(plus(2, 2), 4);
}
