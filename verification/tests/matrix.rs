use qr2term::matrix::Matrix;

#[test]
fn surround_quiet_normal() {
    let input = vec![
        0, 1, 2, //
        3, 4, 5, //
        6, 7, 8,
    ];
    let expected = vec![
        9, 9, 9, 9, 9, 9, 9, 9, 9, //
        9, 9, 9, 9, 9, 9, 9, 9, 9, //
        9, 9, 9, 9, 9, 9, 9, 9, 9, //
        9, 9, 9, 0, 1, 2, 9, 9, 9, //
        9, 9, 9, 3, 4, 5, 9, 9, 9, //
        9, 9, 9, 6, 7, 8, 9, 9, 9, //
        9, 9, 9, 9, 9, 9, 9, 9, 9, //
        9, 9, 9, 9, 9, 9, 9, 9, 9, //
        9, 9, 9, 9, 9, 9, 9, 9, 9,
    ];
    let mut matrix = Matrix::new(input);
    matrix.surround(3, 9);
    let actual = matrix.pixels();
    assert_eq!(expected, actual);
}

#[test]
fn surround_quiet_empty() {
    let mut matrix = Matrix::new(vec![]);
    matrix.surround(3, 7);
    let actual = matrix.pixels();
    let expected = vec![7; (3 * 2) * (3 * 2)];
    assert_eq!(expected, actual);
}

#[test]
fn new_accepts_perfect_squares() {
    assert_eq!(Matrix::<u8>::new(vec![]).size(), 0);
    assert_eq!(Matrix::new(vec![5u8]).size(), 1);
    assert_eq!(Matrix::new(vec![0u8; 4]).size(), 2);
    assert_eq!(Matrix::new(vec![0u8; 9]).size(), 3);
    assert_eq!(Matrix::new(vec![0u8; 16]).size(), 4);
}

#[test]
fn pixels_round_trip() {
    let matrix = Matrix::new(vec![10u8, 20, 30, 40]);
    assert_eq!(matrix.pixels(), &[10u8, 20, 30, 40]);
    assert_eq!(matrix.size(), 2);
}

#[test]
fn surround_grows_each_time() {
    let mut matrix = Matrix::new(vec![1u8]);
    matrix.surround(1, 0);
    assert_eq!(matrix.size(), 3);
    assert_eq!(matrix.pixels(), &[0u8, 0, 0, 0, 1, 0, 0, 0, 0]);
    matrix.surround(2, 7);
    assert_eq!(matrix.size(), 7);
    assert_eq!(matrix.pixels()[3 * 7 + 3], 1u8);
    assert_eq!(matrix.pixels()[0], 7u8);
}
