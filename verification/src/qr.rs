//! QR code type.

use vstd::prelude::*;

use crate::matrix::Matrix;
use crate::render::Color;
use crate::util::is_square;

verus! {

/// The error type of the external `qrcode` encoder, carried through opaquely.
#[verifier::external_type_specification]
#[verifier::external_body]
pub struct ExQrError(qrcode::types::QrError);

/// What the external encoder produces for the given input bytes: the flat
/// row-major module grid, `true` for a dark module, or nothing when the
/// encoder rejects the input (for example because it exceeds the scheme's
/// maximum capacity). Automatic encoding is a pure function of the bytes.
pub uninterp spec fn qr_encoding_of(data: Seq<u8>) -> Option<Seq<bool>>;

/// The module grid of [`qr_encoding_of`] as binary colors, empty when the
/// encoder rejects the input.
pub open spec fn encoded_colors(data: Seq<u8>) -> Seq<Color> {
    match qr_encoding_of(data) {
        Some(bits) => bits.map_values(
            |b: bool|
                if b {
                    Color::Dark
                } else {
                    Color::Light
                },
        ),
        None => Seq::empty(),
    }
}

/// Relies on `qrcode::QrCode::new` and `QrCode::to_colors`: automatic
/// encoding at the medium error-correction level is a deterministic
/// function of the input bytes alone; on success `to_colors` hands out the
/// module grid row-major with `width * width` entries, and the width of a
/// generated code is one of the normal QR versions' widths, `4 * v + 17`
/// for `v` in `1..=40`, hence at most 177.
#[verifier::external_body]
fn qr_encode(data: &[u8]) -> (r: Result<Vec<bool>, qrcode::types::QrError>)
    ensures
        r is Ok <==> qr_encoding_of(data@) is Some,
        r matches Ok(v) ==> {
            &&& Some(v@) == qr_encoding_of(data@)
            &&& is_square(v@.len() as int)
            &&& v@.len() <= 177 * 177
        },
{
    match qrcode::QrCode::new(data) {
        Ok(code) => Ok(
            code.to_colors().iter().map(|c| matches!(c, qrcode::types::Color::Dark)).collect(),
        ),
        Err(e) => Err(e),
    }
}

/// Raw QR code: the encoded module grid, kept as a flat perfect-square
/// sequence of colors.
pub struct Qr {
    colors: Vec<Color>,
}

impl View for Qr {
    type V = Seq<Color>;

    closed spec fn view(&self) -> Seq<Color> {
        self.colors@
    }
}

impl Qr {
    /// The invariant the encoder guarantees: a perfect-square number of
    /// modules, and no more of them than the largest QR version's grid.
    pub closed spec fn wf(&self) -> bool {
        &&& is_square(self.colors@.len() as int)
        &&& self.colors@.len() <= 177 * 177
    }

    /// Construct a new QR code encoding the given data.
    ///
    /// Fails with [`QrCodeError::EncodingFailed`] exactly when the external
    /// encoder rejects the data, and surfaces the encoder's own error.
    #[verifier::loop_isolation(false)]
    pub fn from(data: &[u8]) -> (r: Result<Self, crate::QrCodeError>)
        ensures
            r is Ok <==> qr_encoding_of(data@) is Some,
            r matches Ok(qr) ==> qr.wf() && qr@ == encoded_colors(data@),
            r matches Err(e) ==> e is EncodingFailed,
    {
        match qr_encode(data) {
            Ok(bits) => {
                let mut colors: Vec<Color> = Vec::new();
                let mut i: usize = 0;
                while i < bits.len()
                    invariant
                        i <= bits@.len(),
                        colors@.len() == i,
                        forall|j: int|
                            0 <= j < i ==> colors@[j] == (if bits@[j] {
                                Color::Dark
                            } else {
                                Color::Light
                            }),
                    decreases bits@.len() - i,
                {
                    if bits[i] {
                        colors.push(Color::Dark);
                    } else {
                        colors.push(Color::Light);
                    }
                    i = i + 1;
                }
                proof {
                    assert(colors@ =~= encoded_colors(data@));
                }
                Ok(Qr { colors })
            },
            Err(e) => Err(crate::QrCodeError::EncodingFailed(e)),
        }
    }

    /// Create the pixel matrix of this QR code.
    #[verifier::loop_isolation(false)]
    pub fn to_matrix(&self) -> (m: Matrix<Color>)
        requires
            self.wf(),
        ensures
            m.wf(),
            m@ == self@,
            m.spec_side() * m.spec_side() == self@.len(),
            0 <= m.spec_side() <= 177,
    {
        let mut pixels: Vec<Color> = Vec::new();
        let mut i: usize = 0;
        while i < self.colors.len()
            invariant
                i <= self.colors@.len(),
                pixels@ == self.colors@.take(i as int),
            decreases self.colors@.len() - i,
        {
            pixels.push(self.colors[i]);
            proof {
                assert(pixels@ =~= self.colors@.take(i + 1 as int));
            }
            i = i + 1;
        }
        proof {
            assert(pixels@ =~= self.colors@);
        }
        let m = Matrix::new(pixels);
        proof {
            assert(m.spec_side() <= 177) by (nonlinear_arith)
                requires
                    0 <= m.spec_side(),
                    m.spec_side() * m.spec_side() <= 177 * 177,
            ;
        }
        m
    }
}

} // verus!
