use qr2term::matrix::Matrix;
use qr2term::render::{Color, QrDark, QrLight, Renderer};

/// Remove ANSI SGR escape sequences (ESC '[' ... 'm') from rendered text.
fn without_ansi_codes(text: &str) -> String {
    let mut out = String::new();
    let mut chars = text.chars().peekable();
    while let Some(c) = chars.next() {
        if c == '\u{1b}' && chars.peek() == Some(&'[') {
            for e in chars.by_ref() {
                if e == 'm' {
                    break;
                }
            }
        } else {
            out.push(c);
        }
    }
    out
}

/// Length of the longest line in visible characters.
fn visible_width(text: &str) -> usize {
    if text.is_empty() {
        return 0;
    }
    without_ansi_codes(text)
        .split('\n')
        .map(|line| line.chars().count())
        .max()
        .unwrap()
}

/// Number of lines, counted as written line breaks.
fn visible_height(text: &str) -> usize {
    text.bytes().filter(|&b| b == b'\n').count()
}

/// Checks that the expected, promised, and actual width and height match
/// when rendering `pixels` to a terminal QR code.
fn helper_width_and_height(pixels: Vec<Color>, expected_width: usize, expected_height: usize) {
    let matrix = Matrix::new(pixels);
    let renderer = Renderer::default();
    let mut writer = String::new();

    let promised_width = renderer.width(&matrix);
    let promised_height = renderer.height(&matrix);
    renderer.render(&matrix, &mut writer);
    let actual_height = visible_height(&writer);
    let actual_width = visible_width(&writer);

    assert_eq!(expected_width, promised_width);
    assert_eq!(expected_height, promised_height);
    assert_eq!(expected_width, actual_width);
    assert_eq!(expected_height, actual_height);
}

#[test]
fn width_and_height() {
    helper_width_and_height(vec![], 0, 0);
    helper_width_and_height(vec![QrDark], 1, 1);
    helper_width_and_height(vec![QrDark, QrLight, QrLight, QrDark], 2, 1);
    helper_width_and_height(vec![QrDark; 3 * 3], 3, 2);
    helper_width_and_height(vec![QrLight; 4 * 4], 4, 2);
    helper_width_and_height(vec![QrLight; 5 * 5], 5, 3);
    helper_width_and_height(vec![QrDark; 21 * 21], 21, 11);
}

#[test]
fn all_dark_odd_side_last_line_is_half_blocks() {
    // Two dark pixels stacked render as a space on a dark background; the
    // leftover dark row of an odd side renders dark over light, the lower
    // half block, in every column.
    let matrix = Matrix::new(vec![QrDark; 3 * 3]);
    let mut out = String::new();
    Renderer::default().render(&matrix, &mut out);
    let stripped = without_ansi_codes(&out);
    let lines: Vec<&str> = stripped.split_terminator('\n').collect();
    assert_eq!(lines.len(), 2);
    assert_eq!(lines[0], "   ");
    assert_eq!(lines[1], "\u{2584}\u{2584}\u{2584}");
}

#[test]
fn single_dark_pixel_renders_half_block() {
    let matrix = Matrix::new(vec![QrDark]);
    let mut out = String::new();
    Renderer::default().render(&matrix, &mut out);
    let stripped = without_ansi_codes(&out);
    assert_eq!(stripped, "\u{2584}\n");
}

#[test]
fn render_is_deterministic() {
    let pixels = vec![
        QrDark, QrLight, QrDark, //
        QrLight, QrDark, QrLight, //
        QrDark, QrDark, QrLight,
    ];
    let matrix = Matrix::new(pixels);
    let renderer = Renderer::default();
    let mut first = String::new();
    let mut second = String::new();
    renderer.render(&matrix, &mut first);
    renderer.render(&matrix, &mut second);
    assert_eq!(first.as_bytes(), second.as_bytes());
}
