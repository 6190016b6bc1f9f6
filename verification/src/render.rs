//! Rendering utilities.

use crossterm::style::Stylize;
use std::io::Write;
use vstd::prelude::*;
use vstd::string::StringExecFns;

use crate::matrix::Matrix;

pub use crate::render::Color::Dark as QrDark;
pub use crate::render::Color::Light as QrLight;

verus! {

/// A binary pixel colour: a module of the barcode is either dark or light.
#[derive(Clone, Copy, Debug, PartialEq, Eq, Structural)]
pub enum Color {
    /// A dark module.
    Dark,
    /// A light module.
    Light,
}

/// The four styled character cells a renderer emits, one per combination of
/// the top and the bottom pixel of a pixel-row pair.
#[derive(Debug)]
pub struct CellStyle {
    /// The cell for a dark pixel above a dark pixel.
    pub dark_above_dark: String,
    /// The cell for a dark pixel above a light pixel.
    pub dark_above_light: String,
    /// The cell for a light pixel above a dark pixel.
    pub light_above_dark: String,
    /// The cell for a light pixel above a light pixel.
    pub light_above_light: String,
}

/// No character of `s` is a line break.
pub open spec fn newline_free(s: Seq<char>) -> bool {
    forall|i: int| 0 <= i < s.len() ==> s[i] != '\n'
}

/// A styled cell never contains a line break, so the lines of a rendering
/// are delimited exactly by the newlines the renderer itself emits.
pub open spec fn wf_style(style: CellStyle) -> bool {
    &&& newline_free(style.dark_above_dark@)
    &&& newline_free(style.dark_above_light@)
    &&& newline_free(style.light_above_dark@)
    &&& newline_free(style.light_above_light@)
}

/// The characters of the one cell that renders `top` stacked above `bottom`.
pub open spec fn cell_chars(top: Color, bottom: Color, style: CellStyle) -> Seq<char> {
    match (top, bottom) {
        (Color::Dark, Color::Dark) => style.dark_above_dark@,
        (Color::Dark, Color::Light) => style.dark_above_light@,
        (Color::Light, Color::Dark) => style.light_above_dark@,
        (Color::Light, Color::Light) => style.light_above_light@,
    }
}

/// The cell emitted at output row `row` and column `col`: the pixel of row
/// `2 * row` above the pixel of row `2 * row + 1`, the latter taken as Light
/// when an odd side leaves the last pixel row unpaired.
pub open spec fn cell_at(p: Seq<Color>, side: int, row: int, col: int, style: CellStyle) -> Seq<
    char,
> {
    let top = p[2 * row * side + col];
    let bottom = if 2 * row + 1 < side {
        p[(2 * row + 1) * side + col]
    } else {
        Color::Light
    };
    cell_chars(top, bottom, style)
}

/// The first `ncols` cells of output row `row`, concatenated.
pub open spec fn line_chars(
    p: Seq<Color>,
    side: int,
    row: int,
    ncols: int,
    style: CellStyle,
) -> Seq<char>
    decreases ncols,
{
    if ncols <= 0 {
        Seq::empty()
    } else {
        line_chars(p, side, row, ncols - 1, style) + cell_at(p, side, row, ncols - 1, style)
    }
}

/// The first `nrows` output lines, each of `side` cells and terminated by a
/// single line break.
pub open spec fn lines_chars(p: Seq<Color>, side: int, nrows: int, style: CellStyle) -> Seq<char>
    decreases nrows,
{
    if nrows <= 0 {
        Seq::empty()
    } else {
        lines_chars(p, side, nrows - 1, style) + line_chars(p, side, nrows - 1, side, style)
            + seq!['\n']
    }
}

/// The full rendering of a square pixel grid of the given side: pixel rows
/// `2 * r` and `2 * r + 1` packed into output row `r`, `(side + 1) / 2`
/// newline-terminated lines in all.
pub open spec fn render_chars(p: Seq<Color>, side: int, style: CellStyle) -> Seq<char> {
    lines_chars(p, side, (side + 1) / 2, style)
}

/// QR barcode terminal renderer intended for terminals.
#[derive(Debug)]
pub struct Renderer {}

impl Default for Renderer {
    fn default() -> (r: Self)
        ensures
            r == (Renderer {  }),
    {
        Renderer {  }
    }
}

impl Renderer {
    /// Append to `target` the text of a matrix describing a 2D barcode,
    /// styled by the four given character cells.
    ///
    /// The output is a function of the pixels, the side and the style alone,
    /// so rendering is deterministic once the styled cells are fixed.
    #[verifier::loop_isolation(false)]
    pub fn render_styled(&self, matrix: &Matrix<Color>, style: &CellStyle, target: &mut String)
        requires
            matrix.wf(),
        ensures
            final(target)@ == old(target)@ + render_chars(matrix@, matrix.spec_side(), *style),
    {
        let width = matrix.size();
        let pixels = matrix.pixels();
        let total = pixels.len();
        proof {
            assert(total == width * width);
        }
        let ghost p: Seq<Color> = matrix@;
        let ghost w: int = width as int;
        let ghost st: CellStyle = *style;
        let height = width / 2 + width % 2;
        let mut row: usize = 0;
        proof {
            assert(target@ =~= old(target)@ + lines_chars(p, w, 0, st));
        }
        while row < height
            invariant
                row <= height,
                target@ == old(target)@ + lines_chars(p, w, row as int, st),
            decreases height - row,
        {
            let mut col: usize = 0;
            proof {
                assert(target@ =~= old(target)@ + lines_chars(p, w, row as int, st) + line_chars(
                    p,
                    w,
                    row as int,
                    0,
                    st,
                ));
            }
            while col < width
                invariant
                    col <= width,
                    target@ == old(target)@ + lines_chars(p, w, row as int, st) + line_chars(
                        p,
                        w,
                        row as int,
                        col as int,
                        st,
                    ),
                decreases width - col,
            {
                proof {
                    assert(2 * row * width + col < width * width) by (nonlinear_arith)
                        requires
                            0 <= col < width,
                            0 <= 2 * row,
                            2 * row + 1 <= width,
                    ;
                    if 2 * row + 1 < width {
                        assert((2 * row + 1) * width + col < width * width) by (nonlinear_arith)
                            requires
                                0 <= col < width,
                                0 <= 2 * row,
                                2 * row + 2 <= width,
                        ;
                    }
                }
                let top = pixels[2 * row * width + col];
                let bottom = if 2 * row + 1 < width {
                    pixels[(2 * row + 1) * width + col]
                } else {
                    Color::Light
                };
                match (top, bottom) {
                    (Color::Dark, Color::Dark) => target.append(style.dark_above_dark.as_str()),
                    (Color::Dark, Color::Light) => target.append(style.dark_above_light.as_str()),
                    (Color::Light, Color::Dark) => target.append(style.light_above_dark.as_str()),
                    (Color::Light, Color::Light) => target.append(
                        style.light_above_light.as_str(),
                    ),
                }
                proof {
                    assert(target@ =~= old(target)@ + lines_chars(p, w, row as int, st)
                        + line_chars(p, w, row as int, col + 1 as int, st));
                }
                col = col + 1;
            }
            self.newline(target);
            proof {
                assert(target@ =~= old(target)@ + lines_chars(p, w, row + 1 as int, st));
            }
            row = row + 1;
        }
        proof {
            assert(height as int == (w + 1) / 2);
        }
    }

    /// Append to `target` the terminal text of a matrix describing a 2D
    /// barcode, in the styling the terminal facility chose for the four
    /// kinds of cell.
    pub fn render(&self, matrix: &Matrix<Color>, target: &mut String)
        requires
            matrix.wf(),
        ensures
            exists|style: CellStyle|
                wf_style(style) && final(target)@ == old(target)@ + render_chars(
                    matrix@,
                    matrix.spec_side(),
                    style,
                ),
    {
        let style = CellStyle {
            dark_above_dark: self.black_above_black(),
            dark_above_light: self.black_above_white(),
            light_above_dark: self.white_above_black(),
            light_above_light: self.white_above_white(),
        };
        self.render_styled(matrix, &style, target);
        proof {
            assert(wf_style(style));
            assert(target@ == old(target)@ + render_chars(matrix@, matrix.spec_side(), style));
        }
    }

    /// Print a matrix describing a 2D barcode to the terminal.
    ///
    /// A rejected write is fatal for this call and is reported as
    /// [`crate::QrCodeError::SinkWriteFailure`]; nothing is retried.
    pub fn print_stdout(&self, matrix: &Matrix<Color>) -> (r: Result<(), crate::QrCodeError>)
        requires
            matrix.wf(),
        ensures
            r matches Err(e) ==> e is SinkWriteFailure,
    {
        let mut text = String::new();
        self.render(matrix, &mut text);
        if write_stdout(text.as_str()) {
            Ok(())
        } else {
            Err(crate::QrCodeError::SinkWriteFailure)
        }
    }

    /// How many horizontal characters or columns in the terminal it takes to
    /// render `matrix`: one per pixel column.
    pub fn width(&self, matrix: &Matrix<Color>) -> (r: usize)
        requires
            matrix.wf(),
        ensures
            r == matrix.spec_side(),
    {
        matrix.size()
    }

    /// How many vertical characters or rows or lines in the terminal it
    /// takes to render `matrix`: two pixel rows become one character row,
    /// and an odd side leaves one extra row for the leftover pixel row.
    pub fn height(&self, matrix: &Matrix<Color>) -> (r: usize)
        requires
            matrix.wf(),
        ensures
            r == (matrix.spec_side() + 1) / 2,
    {
        matrix.size() / 2 + matrix.size() % 2
    }

    /// Terminal-format one character cell that shows a black pixel above a
    /// white pixel.
    ///
    /// The naive approach would be to use a full block, an upper half block,
    /// a lower half block and a space. Unfortunately the full and the upper
    /// half block are rendered on some terminals and fonts with a gap above
    /// them, so stacking them leaves a gap between the lines. The lower half
    /// block seems to render without a gap under it, so both fully dark and
    /// fully light cells are synthesised from a space with foreground and
    /// background swapped, never from a full or upper half block.
    ///
    /// Relies on crossterm's `Stylize` and the `Display` of its
    /// `StyledContent`: the output is the lower half block glyph wrapped in
    /// SGR escape sequences (which may be suppressed by the process
    /// environment), and none of those sequences contains a line break.
    #[verifier::external_body]
    fn black_above_white(&self) -> (r: String)
        ensures
            newline_free(r@),
            exists|pre: Seq<char>, post: Seq<char>| r@ == pre + "\u{2584}"@ + post,
    {
        format!("{}", "▄".white().on_black())
    }

    /// Similar to `black_above_white`.
    ///
    /// Relies on crossterm's `Stylize` and the `Display` of its
    /// `StyledContent`: the styled lower half block contains no line break.
    #[verifier::external_body]
    fn white_above_black(&self) -> (r: String)
        ensures
            newline_free(r@),
            exists|pre: Seq<char>, post: Seq<char>| r@ == pre + "\u{2584}"@ + post,
    {
        format!("{}", "▄".black().on_white())
    }

    /// Similar to `black_above_white`.
    ///
    /// Relies on crossterm's `Stylize` and the `Display` of its
    /// `StyledContent`: the styled space contains no line break.
    #[verifier::external_body]
    fn black_above_black(&self) -> (r: String)
        ensures
            newline_free(r@),
            exists|pre: Seq<char>, post: Seq<char>| r@ == pre + " "@ + post,
    {
        format!("{}", " ".white().on_black())
    }

    /// Similar to `black_above_white`.
    ///
    /// Relies on crossterm's `Stylize` and the `Display` of its
    /// `StyledContent`: the styled space contains no line break.
    #[verifier::external_body]
    fn white_above_white(&self) -> (r: String)
        ensures
            newline_free(r@),
            exists|pre: Seq<char>, post: Seq<char>| r@ == pre + " "@ + post,
    {
        format!("{}", " ".black().on_white())
    }

    /// Append the line break, which carries no styling state into the next
    /// line.
    fn newline(&self, target: &mut String)
        ensures
            final(target)@ == old(target)@ + seq!['\n'],
    {
        proof {
            reveal_strlit("\n");
        }
        target.append("\n");
        proof {
            assert(target@ =~= old(target)@ + seq!['\n']);
        }
    }
}

/// Relies on the `Write` impl of `std::io::Stdout` through the `write!`
/// macro: the call returns `Ok` exactly when the whole text was accepted by
/// the standard output stream, and nothing is promised of a stream that
/// fails.
#[verifier::external_body]
fn write_stdout(text: &str) -> (r: bool) {
    write!(std::io::stdout(), "{}", text).is_ok()
}

/// Rendering is deterministic: the rendered text is a function of the
/// pixels, the side and the styled cells alone, so two renders of the same
/// matrix with the same cell styling are identical, character for character.
pub proof fn lemma_render_deterministic(
    p: Seq<Color>,
    side: int,
    style: CellStyle,
    out1: Seq<char>,
    out2: Seq<char>,
)
    requires
        out1 == render_chars(p, side, style),
        out2 == render_chars(p, side, style),
    ensures
        out1 == out2,
{
}

/// `s` concatenated `n` times.
pub open spec fn repeat_chars(s: Seq<char>, n: int) -> Seq<char>
    decreases n,
{
    if n <= 0 {
        Seq::empty()
    } else {
        repeat_chars(s, n - 1) + s
    }
}

proof fn lemma_line_all_dark(p: Seq<Color>, side: int, row: int, ncols: int, style: CellStyle)
    requires
        0 <= row,
        2 * row < side,
        0 <= ncols <= side,
        p.len() == side * side,
        forall|i: int| 0 <= i < p.len() ==> p[i] == Color::Dark,
    ensures
        2 * row + 1 < side ==> line_chars(p, side, row, ncols, style) == repeat_chars(
            style.dark_above_dark@,
            ncols,
        ),
        2 * row + 1 == side ==> line_chars(p, side, row, ncols, style) == repeat_chars(
            style.dark_above_light@,
            ncols,
        ),
    decreases ncols,
{
    if ncols > 0 {
        lemma_line_all_dark(p, side, row, ncols - 1, style);
        assert(0 <= 2 * row * side + (ncols - 1) < side * side) by (nonlinear_arith)
            requires
                0 <= ncols - 1 < side,
                0 <= 2 * row,
                2 * row + 1 <= side,
        ;
        if 2 * row + 1 < side {
            assert(0 <= (2 * row + 1) * side + (ncols - 1) < side * side) by (nonlinear_arith)
                requires
                    0 <= ncols - 1 < side,
                    0 <= 2 * row,
                    2 * row + 2 <= side,
            ;
        }
    }
}

proof fn lemma_lines_all_dark(p: Seq<Color>, side: int, nrows: int, style: CellStyle)
    requires
        side % 2 == 1,
        0 <= nrows <= (side - 1) / 2,
        p.len() == side * side,
        forall|i: int| 0 <= i < p.len() ==> p[i] == Color::Dark,
    ensures
        lines_chars(p, side, nrows, style) == repeat_chars(
            repeat_chars(style.dark_above_dark@, side) + seq!['\n'],
            nrows,
        ),
    decreases nrows,
{
    if nrows > 0 {
        lemma_lines_all_dark(p, side, nrows - 1, style);
        lemma_line_all_dark(p, side, nrows - 1, side, style);
    }
}

/// Rendering an all-Dark matrix of odd side `side` produces `(side + 1) / 2`
/// newline-terminated lines of `side` cells each: every full line repeats
/// the Dark-above-Dark cell, and the final line, whose leftover pixel row
/// has no partner below it, repeats the Dark-above-Light cell in every one
/// of its `side` columns.
pub proof fn lemma_render_all_dark_odd(p: Seq<Color>, side: int, style: CellStyle)
    requires
        side >= 1,
        side % 2 == 1,
        p.len() == side * side,
        forall|i: int| 0 <= i < p.len() ==> p[i] == Color::Dark,
    ensures
        render_chars(p, side, style) == repeat_chars(
            repeat_chars(style.dark_above_dark@, side) + seq!['\n'],
            (side - 1) / 2,
        ) + repeat_chars(style.dark_above_light@, side) + seq!['\n'],
{
    let last = (side + 1) / 2 - 1;
    lemma_lines_all_dark(p, side, last, style);
    lemma_line_all_dark(p, side, last, side, style);
}

} // verus!
