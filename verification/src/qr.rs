//! QR rendering: encode text as a QR code, upscale each module to a fixed
//! pixel block, encode the bitmap as PNG and wrap it in a base64 data URI.
//!
//! The QR symbol and the two encoders come from outside crates; the module
//! grid is read into plain values and the upscaling is verified.

use vstd::prelude::*;
use vstd::arithmetic::div_mod::lemma_fundamental_div_mod;
use vstd::arithmetic::div_mod::lemma_fundamental_div_mod_converse;
use crate::service::has_prefix;

verus! {

/// Upscale factor: each QR module becomes a `QR_SCALE` x `QR_SCALE` pixel
/// block in the rendered bitmap.
pub const QR_SCALE: usize = 10;

/// Errors of [`generate_qr`].
#[derive(Debug, PartialEq, Eq, Structural)]
pub enum QrError {
    /// The text cannot be encoded as a QR code (for instance, too long).
    ValidationError,
    /// The bitmap could not be encoded as a PNG image.
    RenderError,
}

#[verifier::external_type_specification]
#[verifier::external_body]
pub struct ExQrCode(qrcodegen::QrCode);

/// The side length, in modules, of a QR symbol built by qrcodegen.
pub uninterp spec fn qr_side(qr: qrcodegen::QrCode) -> int;

/// The module grid of a QR symbol built by qrcodegen, row-major: entry
/// `y * qr_side(qr) + x` is true when the module at `(x, y)` is dark.
pub uninterp spec fn qr_modules(qr: qrcodegen::QrCode) -> Seq<bool>;

/// Whether qrcodegen can encode `text` as a QR symbol at medium error
/// correction: a property of the text alone (it fails exactly when the text
/// does not fit any version up to 40).
pub uninterp spec fn qr_encodable(text: Seq<char>) -> bool;

/// The side length of the QR symbol qrcodegen builds for `text` at medium
/// error correction: a function of the text alone.
pub uninterp spec fn qr_side_of(text: Seq<char>) -> int;

/// The module grid of the QR symbol qrcodegen builds for `text` at medium
/// error correction: a function of the text alone.
pub uninterp spec fn qr_modules_of(text: Seq<char>) -> Seq<bool>;

/// Relies on `qrcodegen::QrCode::encode_text` at medium error correction:
/// it succeeds exactly when the text is encodable, the construction is
/// deterministic in the text, and the symbol's size is in `[21, 177]` with
/// a square module grid.
#[verifier::external_body]
fn qr_encode_text(text: &str) -> (r: Option<qrcodegen::QrCode>)
    ensures
        (r is Some) <==> qr_encodable(text@),
        r matches Some(qr) ==> qr_side(qr) == qr_side_of(text@) && qr_modules(qr) == qr_modules_of(
            text@,
        ),
        r matches Some(qr) ==> 21 <= qr_side(qr) <= 177 && qr_modules(qr).len() == qr_side(qr)
            * qr_side(qr),
{
    match qrcodegen::QrCode::encode_text(text, qrcodegen::QrCodeEcc::Medium) {
        Ok(qr) => Some(qr),
        Err(_) => None,
    }
}

/// Relies on `qrcodegen::QrCode::size`: the symbol's side length, which its
/// documentation puts in the range `[21, 177]`.
#[verifier::external_body]
fn qr_size(qr: &qrcodegen::QrCode) -> (n: i32)
    ensures
        n == qr_side(*qr),
        21 <= n <= 177,
{
    qr.size()
}

/// Relies on `qrcodegen::QrCode::get_module`: true exactly for a dark module
/// at in-bounds coordinates, false anywhere outside the grid.
#[verifier::external_body]
fn qr_get_module(qr: &qrcodegen::QrCode, x: i32, y: i32) -> (b: bool)
    ensures
        b == (0 <= (x as int) && (x as int) < qr_side(*qr) && 0 <= (y as int) && (y as int)
            < qr_side(*qr) && qr_modules(*qr)[(y as int) * qr_side(*qr) + (x as int)]),
{
    qr.get_module(x, y)
}

/// A QR module grid held as plain values: `side` modules per row, row-major,
/// true for dark.
pub struct QrGrid {
    pub side: usize,
    pub modules: Vec<bool>,
}

impl QrGrid {
    /// Well-formed grid: a QR side length and a full square grid.
    pub open spec fn wf(&self) -> bool {
        1 <= self.side <= 177 && self.modules@.len() == self.side * self.side
    }
}

/// Reads a qrcodegen symbol into a plain module grid, module by module.
fn qr_to_grid(qr: &qrcodegen::QrCode) -> (g: QrGrid)
    requires
        21 <= qr_side(*qr) <= 177,
        qr_modules(*qr).len() == qr_side(*qr) * qr_side(*qr),
    ensures
        g.wf(),
        g.side == qr_side(*qr),
        g.modules@ == qr_modules(*qr),
{
    let n = qr_size(qr);
    let side = n as usize;
    let mut modules: Vec<bool> = Vec::new();
    let mut y: usize = 0;
    while y < side
        invariant
            side == qr_side(*qr),
            side <= 177,
            qr_modules(*qr).len() == side * side,
            y <= side,
            modules@.len() == y * side,
            forall|i: int| 0 <= i < modules@.len() ==> modules@[i] == qr_modules(*qr)[i],
        decreases side - y,
    {
        let mut x: usize = 0;
        while x < side
            invariant
                side == qr_side(*qr),
                side <= 177,
                qr_modules(*qr).len() == side * side,
                y < side,
                x <= side,
                modules@.len() == y * side + x,
                forall|i: int| 0 <= i < modules@.len() ==> modules@[i] == qr_modules(*qr)[i],
            decreases side - x,
        {
            let b = qr_get_module(qr, x as i32, y as i32);
            proof {
                assert(y * side + x < side * side) by (nonlinear_arith)
                    requires
                        0 <= y < side,
                        0 <= x < side,
                ;
            }
            modules.push(b);
            x = x + 1;
        }
        proof {
            assert((y + 1) * side == y * side + side) by (nonlinear_arith);
        }
        y = y + 1;
    }
    proof {
        assert(side * side == modules@.len());
        assert(modules@ =~= qr_modules(*qr));
    }
    QrGrid { side, modules }
}

/// The pixel value of the scaled bitmap at flat index `i`, for a grid of
/// side `side`: the module covering the pixel decides, dark giving 0 and
/// light giving 255.
pub open spec fn scaled_pixel(side: int, modules: Seq<bool>, i: int) -> u8 {
    let w = side * QR_SCALE;
    if modules[((i / w) / (QR_SCALE as int)) * side + ((i % w) / (QR_SCALE as int))] {
        0u8
    } else {
        255u8
    }
}

/// The scaled bitmap of a module grid: a square gray image of side
/// `side * QR_SCALE`, row-major, each module covering a square pixel block.
pub open spec fn scaled_pixels(side: int, modules: Seq<bool>) -> Seq<u8> {
    Seq::new((side * QR_SCALE * side * QR_SCALE) as nat, |i: int| scaled_pixel(side, modules, i))
}

/// Upscales a module grid to its gray bitmap, pixel by pixel.
pub fn scale_grid(grid: &QrGrid) -> (pixels: Vec<u8>)
    requires
        grid.wf(),
    ensures
        pixels@ == scaled_pixels(grid.side as int, grid.modules@),
        pixels@.len() == (grid.side * QR_SCALE) * (grid.side * QR_SCALE),
{
    let side = grid.side;
    let w = side * QR_SCALE;
    let mut pixels: Vec<u8> = Vec::new();
    let mut row: usize = 0;
    while row < w
        invariant
            side == grid.side,
            side <= 177,
            w == side * QR_SCALE,
            grid.modules@.len() == side * side,
            row <= w,
            pixels@.len() == row * w,
            forall|i: int| 0 <= i < pixels@.len() ==> pixels@[i] == scaled_pixel(
                side as int,
                grid.modules@,
                i,
            ),
        decreases w - row,
    {
        let mut col: usize = 0;
        while col < w
            invariant
                side == grid.side,
                side <= 177,
                w == side * QR_SCALE,
                grid.modules@.len() == side * side,
                row < w,
                col <= w,
                pixels@.len() == row * w + col,
                forall|i: int| 0 <= i < pixels@.len() ==> pixels@[i] == scaled_pixel(
                    side as int,
                    grid.modules@,
                    i,
                ),
            decreases w - col,
        {
            let mr = row / QR_SCALE;
            let mc = col / QR_SCALE;
            proof {
                lemma_fundamental_div_mod(row as int, QR_SCALE as int);
                lemma_fundamental_div_mod(col as int, QR_SCALE as int);
                assert(mr < side);
                assert(mc < side);
                assert(side * side <= 31329) by (nonlinear_arith)
                    requires
                        0 <= side <= 177,
                ;
                assert(mr * side + mc < side * side) by (nonlinear_arith)
                    requires
                        0 <= mr < side,
                        0 <= mc < side,
                ;
            }
            let b = grid.modules[mr * side + mc];
            let v: u8 = if b {
                0
            } else {
                255
            };
            proof {
                lemma_fundamental_div_mod_converse(
                    row as int * w as int + col as int,
                    w as int,
                    row as int,
                    col as int,
                );
                assert(scaled_pixel(side as int, grid.modules@, (row * w + col) as int) == v);
            }
            pixels.push(v);
            col = col + 1;
        }
        proof {
            assert((row + 1) * w == row * w + w) by (nonlinear_arith);
        }
        row = row + 1;
    }
    proof {
        assert(w * w == side * QR_SCALE * side * QR_SCALE) by (nonlinear_arith)
            requires
                w == side * QR_SCALE,
        ;
        assert(pixels@ =~= scaled_pixels(side as int, grid.modules@));
    }
    pixels
}

/// What PNG encoding returns for a square 8-bit gray bitmap: a function of
/// the pixel bytes and the side length alone.
pub uninterp spec fn png_of(pixels: Seq<u8>, side: int) -> Seq<u8>;

/// Relies on `image::ImageBuffer::from_raw` and `ImageBuffer::write_to`: the
/// pixel buffer is wrapped as a square 8-bit grayscale image and encoded as
/// PNG; the encoding is a function of the pixels and the dimensions alone.
/// `from_raw` accepts any exact-length buffer, and writing an 8-bit gray
/// image as PNG into an in-memory buffer cannot fail, so a positive side
/// always yields `Some`.
#[verifier::external_body]
fn png_encode_gray(pixels: &Vec<u8>, side: u32) -> (r: Option<Vec<u8>>)
    requires
        pixels@.len() == side * side,
    ensures
        side >= 1 ==> r is Some,
        r matches Some(b) ==> b@ == png_of(pixels@, side as int),
{
    let img: image::ImageBuffer<image::Luma<u8>, Vec<u8>> = match image::ImageBuffer::from_raw(
        side,
        side,
        pixels.clone(),
    ) {
        Some(i) => i,
        None => {
            return None;
        },
    };
    let mut buf = std::io::Cursor::new(Vec::new());
    match img.write_to(&mut buf, image::ImageFormat::Png) {
        Ok(()) => Some(buf.into_inner()),
        Err(_) => None,
    }
}

/// What base64 encoding returns: a function of the input bytes alone.
pub uninterp spec fn base64_of(bytes: Seq<u8>) -> Seq<char>;

/// Relies on `base64`'s standard-alphabet engine with padding: the encoding
/// is a function of the input bytes alone.
#[verifier::external_body]
fn base64_encode(bytes: &Vec<u8>) -> (r: String)
    ensures
        r@ == base64_of(bytes@),
{
    base64::Engine::encode(&base64::engine::general_purpose::STANDARD, bytes.as_slice())
}

/// The prefix of a PNG data URI.
pub open spec fn data_uri_prefix() -> Seq<char> {
    "data:image/png;base64,"@
}

/// The data URI of a module grid's scaled, PNG-encoded bitmap.
pub open spec fn data_uri_of(side: int, modules: Seq<bool>) -> Seq<char> {
    data_uri_prefix() + base64_of(png_of(scaled_pixels(side, modules), side * QR_SCALE))
}

/// Renders a module grid: upscales it, encodes the bitmap as PNG and wraps
/// it in a base64 data URI. On a well-formed grid the render always
/// succeeds: PNG encoding of a square gray bitmap into memory cannot fail.
pub fn render_grid(grid: &QrGrid) -> (r: Result<String, QrError>)
    requires
        grid.wf(),
    ensures
        r is Ok,
        r matches Ok(s) ==> s@ == data_uri_of(grid.side as int, grid.modules@),
{
    let pixels = scale_grid(grid);
    let w = grid.side * QR_SCALE;
    match png_encode_gray(&pixels, w as u32) {
        None => Err(QrError::RenderError),
        Some(png) => {
            let b64 = base64_encode(&png);
            let mut s = String::from_str("data:image/png;base64,");
            s.append(b64.as_str());
            Ok(s)
        },
    }
}

/// Renders the QR code of `text` as a base64 PNG data URI, at medium error
/// correction, each module scaled to a `QR_SCALE` pixel block. It succeeds
/// exactly when the text is QR-encodable; text that qrcodegen rejects (for
/// instance, too long) gives `ValidationError`. The successful result is a
/// deterministic function of the text: the data URI of the text's own QR
/// symbol.
pub fn generate_qr(text: &str) -> (r: Result<String, QrError>)
    ensures
        (r is Ok) <==> qr_encodable(text@),
        r matches Ok(s) ==> s@ == data_uri_of(qr_side_of(text@), qr_modules_of(text@)),
        r matches Ok(s) ==> has_prefix(s@, data_uri_prefix()),
        r matches Err(e) ==> e == QrError::ValidationError,
{
    match qr_encode_text(text) {
        None => Err(QrError::ValidationError),
        Some(qr) => {
            let grid = qr_to_grid(&qr);
            let r = render_grid(&grid);
            proof {
                assert(r->Ok_0@ == data_uri_of(grid.side as int, grid.modules@));
                assert(grid.side as int == qr_side_of(text@));
                assert(grid.modules@ == qr_modules_of(text@));
                lemma_data_uri_shape(grid.side as int, grid.modules@);
            }
            r
        },
    }
}

/// Every successful render is a data URI: it begins with the
/// `data:image/png;base64,` prefix.
pub proof fn lemma_data_uri_shape(side: int, modules: Seq<bool>)
    ensures
        has_prefix(data_uri_of(side, modules), data_uri_prefix()),
{
    let d = data_uri_of(side, modules);
    let p = data_uri_prefix();
    assert(d.subrange(0, p.len() as int) =~= p);
}

} // verus!
