//! Matrix type representing a 2D barcode.

use vstd::arithmetic::div_mod::lemma_fundamental_div_mod_converse;
use vstd::prelude::*;

use crate::util::is_square;
use crate::util::usize_sqrt;

verus! {

/// A square 2D matrix representing a barcode: a flat row-major sequence of
/// `side * side` pixels (`index = row * side + col`).
#[derive(Debug)]
pub struct Matrix<T> {
    pixels: Vec<T>,
    side: usize,
}

impl<T> View for Matrix<T> {
    type V = Seq<T>;

    closed spec fn view(&self) -> Seq<T> {
        self.pixels@
    }
}

/// The pixel a padded matrix holds at `(row, col)`: the original pixel
/// shifted by `thickness` when `(row, col)` lies in the centred copy, and
/// the `quiet` fill everywhere else.
pub open spec fn surround_cell<T>(
    s: Seq<T>,
    side: int,
    thickness: int,
    quiet: T,
    row: int,
    col: int,
) -> T {
    if thickness <= row < side + thickness && thickness <= col < side + thickness {
        s[(row - thickness) * side + (col - thickness)]
    } else {
        quiet
    }
}

/// The flat sequence of a matrix of side `side` surrounded by a border of
/// `quiet` pixels of the given `thickness`.
pub open spec fn surrounded<T>(s: Seq<T>, side: int, thickness: int, quiet: T) -> Seq<T> {
    let out_side = side + 2 * thickness;
    Seq::new(
        (out_side * out_side) as nat,
        |i: int| surround_cell(s, side, thickness, quiet, i / out_side, i % out_side),
    )
}

impl<T> Matrix<T> {
    /// The side length of the square grid.
    pub closed spec fn spec_side(&self) -> int {
        self.side as int
    }

    /// The matrix invariant: the flat pixel sequence holds exactly
    /// `side * side` entries.
    pub closed spec fn wf(&self) -> bool {
        self.pixels@.len() == self.side * self.side
    }

    /// Construct a new QR matrix from the given pixels.
    ///
    /// The number of pixels must be a perfect square; anything else would be
    /// a malformed grid, a programming error upstream rather than bad input.
    pub fn new(pixels: Vec<T>) -> (m: Self)
        requires
            is_square(pixels@.len() as int),
        ensures
            m.wf(),
            m@ == pixels@,
            0 <= m.spec_side(),
            m.spec_side() * m.spec_side() == pixels@.len(),
    {
        let side = usize_sqrt(pixels.len());
        Matrix { pixels, side }
    }

    /// The width and height of the QR code in pixels.
    pub fn size(&self) -> (r: usize)
        requires
            self.wf(),
        ensures
            r == self.spec_side(),
            self@.len() == r * r,
    {
        self.side
    }

    /// Read-only view of the backing sequence, in row-major order.
    pub fn pixels(&self) -> (r: &[T])
        ensures
            r@ == self@,
    {
        self.pixels.as_slice()
    }

    /// Surround this matrix with `quiet` pixels of the specified `thickness`:
    /// the original pixels move to the centre, offset by `thickness` in both
    /// row and column, and every border cell is set to `quiet`.
    #[verifier::loop_isolation(false)]
    pub fn surround(&mut self, thickness: usize, quiet: T) where T: Copy
        requires
            old(self).wf(),
            (old(self).spec_side() + 2 * thickness) * (old(self).spec_side() + 2 * thickness)
                <= usize::MAX,
        ensures
            final(self).wf(),
            final(self).spec_side() == old(self).spec_side() + 2 * thickness,
            final(self)@ == surrounded(old(self)@, old(self).spec_side(), thickness as int, quiet),
    {
        let width = self.size();
        proof {
            assert(width + 2 * thickness <= (width + 2 * thickness) * (width + 2 * thickness))
                by (nonlinear_arith)
                requires
                    0 <= width + 2 * thickness,
            ;
        }
        let out_width = width + thickness * 2;
        let ghost target: Seq<T> = surrounded(old(self)@, width as int, thickness as int, quiet);
        proof {
            assert(target.len() == out_width * out_width);
        }

        let mut out: Vec<T> = Vec::new();
        let mut row: usize = 0;
        while row < out_width
            invariant
                row <= out_width,
                out@.len() == row * out_width,
                out@ == target.take(out@.len() as int),
            decreases out_width - row,
        {
            let mut col: usize = 0;
            while col < out_width
                invariant
                    col <= out_width,
                    out@.len() == row * out_width + col,
                    out@ == target.take(out@.len() as int),
                decreases out_width - col,
            {
                proof {
                    assert(row * out_width + col < out_width * out_width) by (nonlinear_arith)
                        requires
                            0 <= row < out_width,
                            0 <= col < out_width,
                    ;
                    lemma_fundamental_div_mod_converse(
                        row * out_width + col,
                        out_width as int,
                        row as int,
                        col as int,
                    );
                }
                let val = if thickness <= row && row < width + thickness && thickness <= col
                    && col < width + thickness {
                    proof {
                        assert(width * width <= (width + 2 * thickness) * (width + 2 * thickness))
                            by (nonlinear_arith)
                            requires
                                0 <= width,
                                0 <= thickness,
                        ;
                        assert((row - thickness) * width + (col - thickness) < width * width)
                            by (nonlinear_arith)
                            requires
                                0 <= row - thickness < width,
                                0 <= col - thickness < width,
                        ;
                        assert((row - thickness) * width >= 0) by (nonlinear_arith)
                            requires
                                0 <= row - thickness,
                                0 <= width,
                        ;
                    }
                    self.pixels[(row - thickness) * width + (col - thickness)]
                } else {
                    quiet
                };
                proof {
                    assert(val == target[out@.len() as int]);
                    assert(target.take(out@.len() + 1 as int) =~= target.take(out@.len() as int).push(
                        target[out@.len() as int],
                    ));
                }
                out.push(val);
                col = col + 1;
            }
            proof {
                assert((row + 1) * out_width == row * out_width + out_width) by (nonlinear_arith);
            }
            row = row + 1;
        }
        proof {
            assert(out@ =~= target);
        }
        self.pixels = out;
        self.side = out_width;
    }
}

/// Padding round trip: in the padded matrix every cell whose row or column
/// index is below the thickness or at least `side + thickness` holds the
/// fill, and the centre reproduces the original matrix's pixel at the
/// position offset by the thickness.
pub proof fn lemma_surround_round_trip<T>(
    s: Seq<T>,
    side: int,
    thickness: int,
    quiet: T,
    row: int,
    col: int,
)
    requires
        0 <= side,
        0 <= thickness,
        s.len() == side * side,
        0 <= row < side + 2 * thickness,
        0 <= col < side + 2 * thickness,
    ensures
        surrounded(s, side, thickness, quiet).len() == (side + 2 * thickness) * (side + 2
            * thickness),
        row < thickness || row >= side + thickness || col < thickness || col >= side + thickness
            ==> surrounded(s, side, thickness, quiet)[row * (side + 2 * thickness) + col] == quiet,
        thickness <= row < side + thickness && thickness <= col < side + thickness ==> surrounded(
            s,
            side,
            thickness,
            quiet,
        )[row * (side + 2 * thickness) + col] == s[(row - thickness) * side + (col - thickness)],
{
    let w = side + 2 * thickness;
    assert(0 <= row * w + col < w * w) by (nonlinear_arith)
        requires
            0 <= row < w,
            0 <= col < w,
    ;
    lemma_fundamental_div_mod_converse(row * w + col, w, row, col);
}

/// Padding an empty matrix (side 0) with thickness `t` produces a
/// `(2t) x (2t)` grid filled entirely with the fill pixel.
pub proof fn lemma_surround_empty<T>(s: Seq<T>, thickness: int, quiet: T)
    requires
        s.len() == 0,
        0 <= thickness,
    ensures
        surrounded(s, 0, thickness, quiet).len() == (2 * thickness) * (2 * thickness),
        forall|i: int|
            0 <= i < (2 * thickness) * (2 * thickness) ==> surrounded(s, 0, thickness, quiet)[i]
                == quiet,
{
}

} // verus!
