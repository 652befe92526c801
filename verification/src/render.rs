//! The two steps in a row: map the board, then encode the pixels.

use crate::encoder::{encode_canvas_png, png_rgba8_file, rgba_len, MAX_WIDTH};
use crate::error::{EncodeError, MapError, RenderError};
use crate::info::PartialPxlsInfo;
use crate::mapper::{bytes_content, map_board_data_palette, mapped_board};
use bytes::Bytes;
use vstd::prelude::*;

verus! {

/// The pixels of a mapped board are as many as the encoder asks for: the
/// encoder's size check cannot fail on what the mapper made.
pub proof fn lemma_mapped_fits_encoder(board: Seq<u8>, info: PartialPxlsInfo)
    requires
        mapped_board(board, info@) is Ok,
    ensures
        mapped_board(board, info@)->Ok_0.len() == rgba_len(info.width, info.height),
{
    assert(4 * (info.width * info.height) == 4 * info.width * info.height) by (nonlinear_arith);
}

/// Maps a board and encodes its pixels as a PNG file.
///
/// A board that the mapper refuses stops the rendering with the mapper's fault,
/// before any image is encoded. Else the file is the encoding of the mapped
/// pixels, unless the canvas is wider than `MAX_WIDTH` or has no pixels.
pub fn render_canvas(board_data: &Bytes, info: &PartialPxlsInfo) -> (r: Result<
    Vec<u8>,
    RenderError,
>)
    ensures
        match mapped_board(bytes_content(*board_data), info@) {
            Err(fault) => r == Err::<Vec<u8>, RenderError>(RenderError::Mapping(fault)),
            Ok(pixels) => if info.width > MAX_WIDTH {
                r == Err::<Vec<u8>, RenderError>(
                    RenderError::Encoding(EncodeError::TooWide { width: info.width }),
                )
            } else if info.width == 0 || info.height == 0 {
                r matches Err(RenderError::Encoding(EncodeError::Encoder { .. }))
            } else {
                r matches Ok(file) && file@ == png_rgba8_file(pixels, info.width, info.height)
            },
        },
{
    let pixels = match map_board_data_palette(board_data, info) {
        Ok(pixels) => pixels,
        Err(fault) => {
            return Err(RenderError::Mapping(fault));
        },
    };
    proof {
        lemma_mapped_fits_encoder(bytes_content(*board_data), *info);
    }
    match encode_canvas_png(pixels.as_slice(), info.width, info.height) {
        Ok(file) => Ok(file),
        Err(error) => Err(RenderError::Encoding(error)),
    }
}

} // verus!
