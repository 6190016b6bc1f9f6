use qr2term::generate_qr_string;
use qr2term::print_qr;
use qr2term::qr::Qr;
use qr2term::render::Renderer;
use qr2term::QrCodeError;
use qr2term::QUIET_ZONE_WIDTH;

#[test]
fn qr_from_too_long_fails() {
    let data = String::from_utf8(vec![b'a'; 8000]).unwrap();
    let result = Qr::from(data.as_bytes());
    assert!(matches!(result, Err(QrCodeError::EncodingFailed(_))));
}

#[test]
fn generate_qr_string_too_long_fails() {
    let data = String::from_utf8(vec![b'a'; 8000]).unwrap();
    assert!(matches!(
        generate_qr_string(&data),
        Err(QrCodeError::EncodingFailed(_))
    ));
}

#[test]
fn print_qr_too_long_fails_without_printing() {
    let data = String::from_utf8(vec![b'a'; 8000]).unwrap();
    assert!(matches!(
        print_qr(&data),
        Err(QrCodeError::EncodingFailed(_))
    ));
}

#[test]
fn smallest_code_has_side_21() {
    // A single byte fits the smallest QR version, a 21 x 21 grid.
    let qr = Qr::from(b"A").unwrap();
    let matrix = qr.to_matrix();
    assert_eq!(matrix.size(), 21);
}

#[test]
fn generate_qr_string_matches_manual_render() {
    let data = "https://rust-lang.org/";
    let generated = generate_qr_string(data).unwrap();

    let mut matrix = Qr::from(data.as_bytes()).unwrap().to_matrix();
    matrix.surround(QUIET_ZONE_WIDTH, qr2term::render::QrLight);
    let mut manual = String::new();
    Renderer::default().render(&matrix, &mut manual);

    assert_eq!(generated, manual);
}

#[test]
fn generate_qr_string_is_deterministic() {
    let first = generate_qr_string("determinism").unwrap();
    let second = generate_qr_string("determinism").unwrap();
    assert_eq!(first.as_bytes(), second.as_bytes());
}
