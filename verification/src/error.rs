//! Failure kinds of the palette mapper, of the image encoder and of both in a row.

use vstd::prelude::*;

verus! {

/// Why a palette colour could not be decoded.
#[derive(Clone, Copy, Debug, PartialEq, Eq, Structural)]
pub enum ColorError {
    /// After the optional leading `#`, the value does not have six characters.
    BadLength,
    /// The value has six characters, and one of them is no hexadecimal digit.
    BadDigit,
}

/// Why a board could not be mapped to pixels.
#[derive(Clone, Copy, Debug, PartialEq, Eq, Structural)]
pub enum MapError {
    /// The board does not hold `width * height` bytes.
    SizeMismatch { expected: u64, actual: usize },
    /// The byte at `position` is neither the unset marker nor a palette slot.
    IndexOutOfRange { position: usize, index: u8 },
    /// The byte at `position` names palette slot `index`, whose colour is malformed.
    MalformedColor { position: usize, index: u8, cause: ColorError },
}

/// Why a pixel buffer could not be encoded.
#[derive(Debug)]
pub enum EncodeError {
    /// The pixel buffer does not hold `width * height * 4` bytes.
    SizeMismatch { expected: u128, actual: usize },
    /// The image is wider than the encoder can take a row of.
    TooWide { width: u32 },
    /// The PNG encoder refused the image; `message` is its own description.
    Encoder { message: String },
}

/// Why a board could not be rendered to a PNG file.
#[derive(Debug)]
pub enum RenderError {
    /// The mapper refused the board; no image was encoded.
    Mapping(MapError),
    /// The pixels were mapped, and the encoder refused them.
    Encoding(EncodeError),
}

} // verus!
