//! A small QR code renderer that prints text as a QR code to the terminal,
//! and nothing else.
//!
//! The pixel grid is a square [`matrix::Matrix`] of binary [`render::Color`]
//! values.  [`qr::Qr`] obtains such a grid from the `qrcode` encoder, and
//! [`render::Renderer`] packs two pixel rows into one row of half-height
//! glyphs styled through `crossterm`.

use vstd::prelude::*;
use vstd::string::StringSliceAdditionalSpecFns;

pub mod matrix;
pub mod qr;
pub mod render;
pub mod util;

verus! {

/// Why a QR code could not be produced or delivered.
#[derive(Debug)]
pub enum QrCodeError {
    /// The external encoder rejected the input, for example because it
    /// exceeds the encoding scheme's maximum capacity; carries the
    /// encoder's own error, unmasked.
    EncodingFailed(qrcode::types::QrError),
    /// The output sink rejected a write; fatal for the current call.
    SinkWriteFailure,
}

/// Quiet zone size in pixels around the QR code.
///
/// Scanning conventions ask for 4, but 2 keeps the output usable on small
/// terminals.
pub const QUIET_ZONE_WIDTH: usize = 2;

/// The terminal text of the QR code for `data`, under the four styled cells
/// of `style`: the encoder's module grid, surrounded by the quiet zone of
/// Light pixels, packed two pixel rows per text line.
pub open spec fn qr_text(data: Seq<u8>, style: render::CellStyle) -> Seq<char> {
    let colors = qr::encoded_colors(data);
    let side = util::spec_sqrt(colors.len() as int);
    render::render_chars(
        matrix::surrounded(colors, side, QUIET_ZONE_WIDTH as int, render::Color::Light),
        side + 2 * (QUIET_ZONE_WIDTH as int),
        style,
    )
}

/// Print the given `data` as QR code in the terminal.
///
/// Fails with [`QrCodeError::EncodingFailed`] exactly when the external encoder
/// rejects the data, and with [`QrCodeError::SinkWriteFailure`] when the
/// terminal's output stream rejects a write.
pub fn print_qr(data: &str) -> (r: Result<(), QrCodeError>)
    ensures
        r is Ok ==> qr::qr_encoding_of(data.spec_bytes()) is Some,
        r matches Err(e) ==> (e is EncodingFailed <==> qr::qr_encoding_of(data.spec_bytes())
            is None),
{
    let qr = match qr::Qr::from(data.as_bytes()) {
        Ok(qr) => qr,
        Err(e) => {
            return Err(e);
        },
    };
    let mut matrix = qr.to_matrix();
    proof {
        assert((matrix.spec_side() + 4) * (matrix.spec_side() + 4) <= 181 * 181)
            by (nonlinear_arith)
            requires
                0 <= matrix.spec_side() <= 177,
        ;
    }
    matrix.surround(QUIET_ZONE_WIDTH, render::QrLight);
    render::Renderer::default().print_stdout(&matrix)
}

/// Generate a `String` from the given `data` as QR code.
///
/// Fails with [`QrCodeError::EncodingFailed`] exactly when the external encoder
/// rejects the data.  On success the string is the rendered terminal text
/// of the encoded grid, quiet zone included, for the cell styling the
/// terminal facility chose.
pub fn generate_qr_string(data: &str) -> (r: Result<String, QrCodeError>)
    ensures
        r is Ok <==> qr::qr_encoding_of(data.spec_bytes()) is Some,
        r matches Err(e) ==> e is EncodingFailed,
        r matches Ok(s) ==> exists|style: render::CellStyle|
            render::wf_style(style) && s@ == qr_text(data.spec_bytes(), style),
{
    let qr = match qr::Qr::from(data.as_bytes()) {
        Ok(qr) => qr,
        Err(e) => {
            return Err(e);
        },
    };
    let mut matrix = qr.to_matrix();
    let ghost side: int = matrix.spec_side();
    let ghost colors: Seq<render::Color> = matrix@;
    proof {
        assert((matrix.spec_side() + 4) * (matrix.spec_side() + 4) <= 181 * 181)
            by (nonlinear_arith)
            requires
                0 <= matrix.spec_side() <= 177,
        ;
        // The side of the grid is the specification-level square root of
        // the module count.
        assert(util::is_square(colors.len() as int));
        util::lemma_square_root_unique(util::spec_sqrt(colors.len() as int), side);
    }
    matrix.surround(QUIET_ZONE_WIDTH, render::QrLight);
    let mut buf = String::new();
    render::Renderer::default().render(&matrix, &mut buf);
    proof {
        let style = choose|style: render::CellStyle|
            render::wf_style(style) && buf@ == Seq::<char>::empty() + render::render_chars(
                matrix@,
                matrix.spec_side(),
                style,
            );
        assert(buf@ =~= render::render_chars(matrix@, matrix.spec_side(), style));
        assert(buf@ == qr_text(data.spec_bytes(), style));
    }
    Ok(buf)
}

} // verus!
