use qr2term::util::usize_sqrt;

#[test]
fn usize_sqrt_squared() {
    assert_eq!(usize_sqrt(0), 0);
    assert_eq!(usize_sqrt(1), 1);
    assert_eq!(usize_sqrt(4), 2);
    assert_eq!(usize_sqrt(25), 5);
}

#[test]
fn usize_sqrt_of_square_is_root() {
    for k in [0usize, 1, 2, 3, 7, 12, 100, 177] {
        assert_eq!(usize_sqrt(k * k), k);
    }
}
