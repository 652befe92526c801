//! The image encoder: RGBA bytes and dimensions to the bytes of a PNG file.

use crate::error::EncodeError;
use vstd::prelude::*;

verus! {

/// The widest image that is handed to the encoder.
///
/// The encoder's compressor counts the zero bytes of a row in 32 bits, and a row
/// is `4 * width + 1` bytes long: a wider row of one colour would overrun the
/// counter.
pub const MAX_WIDTH: u32 = 0x3FFF_FFFF;

/// `png::EncodingError`, the encoder's reason for a refusal; nothing of its
/// inside is known here.
#[verifier::external_type_specification]
#[verifier::external_body]
pub struct ExEncodingError(png::EncodingError);

/// The bytes of the PNG file that the `png` encoder writes for an image of
/// `width` by `height` pixels, eight bits per channel, in RGBA, with its default
/// filter and compression.
pub uninterp spec fn png_rgba8_file(pixels: Seq<u8>, width: u32, height: u32) -> Seq<u8>;

/// Runs the `png` encoder into a fresh buffer: `Encoder::new`, `set_color` with
/// `ColorType::Rgba`, `set_depth` with `BitDepth::Eight`, `write_header`,
/// `Writer::write_image_data` and `Writer::finish`.
///
/// Trusted, as the encoder's source shows it:
/// - The bytes written are a function of the pixels and the dimensions alone.
/// - `write_header` refuses a width or a height of zero. Nothing else is refused:
///   the colour type and depth are a valid pair, no palette or frame sequence is
///   in play, the buffer has the size that `write_image_data` compares against,
///   and every other error would be a failed write, which a `Vec` does not
///   produce.
///
/// Demanded of the caller, because the encoder would overflow otherwise:
/// - The pixel count, since `write_image_data` multiplies the row length by the
///   height unchecked before it compares. (One byte more per row is multiplied
///   in the same way afterwards; a slice holds at most `isize::MAX` bytes, which
///   leaves room for that.)
/// - The width, for the reason given at `MAX_WIDTH`.
#[verifier::external_body]
fn png_write_rgba8(pixels: &[u8], width: u32, height: u32) -> (r: Result<
    Vec<u8>,
    png::EncodingError,
>)
    requires
        pixels@.len() == 4 * width * height,
        width <= MAX_WIDTH,
    ensures
        r matches Ok(file) ==> file@ == png_rgba8_file(pixels@, width, height),
        (r is Ok) == (width > 0 && height > 0),
{
    let mut file: Vec<u8> = Vec::new();
    let mut encoder = png::Encoder::new(&mut file, width, height);
    encoder.set_color(png::ColorType::Rgba);
    encoder.set_depth(png::BitDepth::Eight);
    let mut writer = encoder.write_header()?;
    writer.write_image_data(pixels)?;
    writer.finish()?;
    Ok(file)
}

/// The encoder's own description of a failure, through the `Display` impl of
/// `png::EncodingError`. Nothing is claimed of the text.
#[verifier::external_body]
fn png_error_text(error: &png::EncodingError) -> String {
    error.to_string()
}

/// The number of bytes that an RGBA image of `width` by `height` pixels holds.
pub open spec fn rgba_len(width: u32, height: u32) -> nat {
    (4 * width * height) as nat
}

/// Turns what the PNG encoder returned into the library's result: the file as it
/// is, or the encoder's refusal.
pub fn encoded_or_refused(outcome: Result<Vec<u8>, png::EncodingError>) -> (r: Result<
    Vec<u8>,
    EncodeError,
>)
    ensures
        match outcome {
            Ok(file) => r == Ok::<Vec<u8>, EncodeError>(file),
            Err(_) => r matches Err(EncodeError::Encoder { .. }),
        },
{
    match outcome {
        Ok(file) => Ok(file),
        Err(error) => Err(EncodeError::Encoder { message: png_error_text(&error) }),
    }
}

/// Encodes an RGBA pixel buffer as a PNG file of `width` by `height` pixels,
/// eight bits per channel, the pixels in the order given.
///
/// In this order: a buffer that does not hold `width * height * 4` bytes is
/// refused; so is an image wider than `MAX_WIDTH`; an image without pixels is
/// refused by the encoder; every other image is encoded.
pub fn encode_canvas_png(pixels: &[u8], width: u32, height: u32) -> (r: Result<
    Vec<u8>,
    EncodeError,
>)
    ensures
        if pixels@.len() != rgba_len(width, height) {
            r == Err::<Vec<u8>, EncodeError>(
                EncodeError::SizeMismatch {
                    expected: rgba_len(width, height) as u128,
                    actual: pixels@.len() as usize,
                },
            )
        } else if width > MAX_WIDTH {
            r == Err::<Vec<u8>, EncodeError>(EncodeError::TooWide { width })
        } else if width == 0 || height == 0 {
            r matches Err(EncodeError::Encoder { .. })
        } else {
            r matches Ok(file) && file@ == png_rgba8_file(pixels@, width, height)
        },
{
    assert(4 * width * height <= u128::MAX) by (nonlinear_arith)
        requires
            width <= u32::MAX,
            height <= u32::MAX,
    ;
    assert(4 * width <= u128::MAX);
    let expected: u128 = 4 * (width as u128) * (height as u128);
    if pixels.len() as u128 != expected {
        return Err(EncodeError::SizeMismatch { expected, actual: pixels.len() });
    }
    if width > MAX_WIDTH {
        return Err(EncodeError::TooWide { width });
    }
    encoded_or_refused(png_write_rgba8(pixels, width, height))
}

} // verus!
