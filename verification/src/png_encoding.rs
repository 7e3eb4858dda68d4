//! The PNG encoding of an image, made by the `png` crate.

use vstd::prelude::*;
use crate::image::{rgba_bytes, Image};

verus! {

/// The error type of the `png` crate's encoder, carried through as it is.
#[verifier::external_type_specification]
#[verifier::external_body]
pub struct ExEncodingError(png::EncodingError);

/// Why an image could not be encoded.
#[derive(Debug)]
pub enum PngError {
    /// The sink refused a write; the text is the sink's own.
    Io(String),
    /// The encoder refused the image; the text says why.
    Format(String),
}

/// The PNG stream that the `png` crate's encoder writes for 8-bit RGBA image
/// data of the given width and height, with its default compression and
/// filter; `None` where it refuses to encode.
pub uninterp spec fn png_stream(data: Seq<u8>, width: u32, height: u32) -> Option<Seq<u8>>;

/// What is left of a size when it is cut down to 32 bits.
pub open spec fn low_32_bits(n: nat) -> u32 {
    (n % 0x1_0000_0000) as u32
}

/// Runs `png::Encoder` on a byte buffer as its sink: `Encoder::new` with the
/// given size, colour type RGBA, bit depth eight, then `write_header` and
/// `Writer::write_image_data`.
///
/// The contract claims that the encoder only appends to the sink; that it
/// succeeds exactly where `png_stream` is defined, and has then appended that
/// stream, end chunk included; and that it refuses a zero width, a zero
/// height, and data that is not four bytes for each pixel. The size bound
/// keeps the encoder's own arithmetic on the row length inside `usize`.
#[verifier::external_body]
fn encode_rgba8(w: &mut Vec<u8>, data: &[u8], width: u32, height: u32) -> (r: Result<
    (),
    png::EncodingError,
>)
    requires
        width * height * 4 <= usize::MAX,
    ensures
        old(w)@.is_prefix_of(final(w)@),
        r is Ok <==> png_stream(data@, width, height) is Some,
        r is Ok ==> final(w)@ == old(w)@ + png_stream(data@, width, height).unwrap(),
        r is Ok ==> width != 0 && height != 0 && data@.len() == width * height * 4,
{
    let mut encoder = png::Encoder::new(w, width, height);
    encoder.set_color(png::ColorType::RGBA);
    encoder.set_depth(png::BitDepth::Eight);
    let mut writer = encoder.write_header()?;
    writer.write_image_data(data)
}

/// Tells the variants of `png::EncodingError` apart and keeps the text of
/// each. Nothing is claimed of the result.
#[verifier::external_body]
fn describe(e: png::EncodingError) -> PngError {
    match e {
        png::EncodingError::IoError(err) => PngError::Io(err.to_string()),
        png::EncodingError::Format(text) => PngError::Format(text.into_owned()),
    }
}

/// A product of two positive factors grows when one factor grows.
proof fn lemma_product_determines_factors(a: int, b: int, c: int, d: int)
    requires
        1 <= a <= c,
        1 <= b <= d,
        a * b == c * d,
    ensures
        a == c,
        b == d,
{
    assert(a * b <= c * b) by (nonlinear_arith)
        requires
            a <= c,
            0 <= b,
    ;
    assert(c * b <= c * d) by (nonlinear_arith)
        requires
            b <= d,
            0 <= c,
    ;
    assert(a < c ==> a * b < c * b) by (nonlinear_arith)
        requires
            1 <= b,
    ;
    assert(b < d ==> c * b < c * d) by (nonlinear_arith)
        requires
            1 <= c,
    ;
}

impl Image {
    /// Write this image in PNG format to the end of a buffer.
    ///
    /// The encoder takes sizes of 32 bits, and a wider size is cut down to
    /// its low 32 bits before it is handed over. The image is encoded
    /// exactly where the encoder accepts its bytes under the size so cut;
    /// it never accepts an image without pixels, nor one with a side that
    /// does not fit in 32 bits. On failure the buffer keeps what it held,
    /// followed by whatever the encoder wrote before it gave up.
    pub fn write_png(&self, w: &mut Vec<u8>) -> (r: Result<(), PngError>)
        ensures
            old(w)@.is_prefix_of(final(w)@),
            r is Ok <==> png_stream(
                rgba_bytes(self@.pixels),
                low_32_bits(self@.width),
                low_32_bits(self@.height),
            ) is Some,
            r is Ok ==> final(w)@ == old(w)@ + png_stream(
                rgba_bytes(self@.pixels),
                low_32_bits(self@.width),
                low_32_bits(self@.height),
            ).unwrap(),
            r is Ok ==> 0 < self@.width <= u32::MAX && 0 < self@.height <= u32::MAX,
    {
        let wide: u64 = self.width() as u64;
        let high: u64 = self.height() as u64;
        let width: u32 = (wide % 0x1_0000_0000) as u32;
        let height: u32 = (high % 0x1_0000_0000) as u32;
        let data = self.as_bytes();
        proof {
            assert(width * height <= wide * high) by (nonlinear_arith)
                requires
                    0 <= width <= wide,
                    0 <= height <= high,
            ;
        }
        match encode_rgba8(w, data, width, height) {
            Ok(()) => {
                proof {
                    lemma_product_determines_factors(
                        width as int,
                        height as int,
                        wide as int,
                        high as int,
                    );
                }
                Ok(())
            },
            Err(e) => Err(describe(e)),
        }
    }
}

} // verus!
