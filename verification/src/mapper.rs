//! The palette mapper: from one palette index per pixel to RGBA bytes.

use crate::color::{all_hex, color_rgb, hex_digit, lemma_hash_is_optional, palette_value_to_rgb};
use crate::error::MapError;
use crate::info::{CanvasModel, PartialPxlsInfo};
use bytes::Bytes;
use vstd::prelude::*;

verus! {

/// The board byte of a pixel that was never set.
pub const UNSET: u8 = 255;

/// `bytes::Bytes`, the buffer that a board arrives in; nothing of its inside is
/// known here.
#[verifier::external_type_specification]
#[verifier::external_body]
pub struct ExBytes(bytes::Bytes);

/// The bytes that a `Bytes` buffer holds, in order.
pub uninterp spec fn bytes_content(buffer: Bytes) -> Seq<u8>;

/// Borrows the contents of a buffer through `Bytes::as_ref`, which hands out the
/// slice that the buffer stands for: all of its bytes, in order.
#[verifier::external_body]
fn bytes_as_slice(buffer: &Bytes) -> (content: &[u8])
    ensures
        content@ == bytes_content(*buffer),
{
    buffer.as_ref()
}

/// What is wrong with the board byte `index` at `position`, if anything.
pub open spec fn pixel_fault(position: int, index: u8, palette: Seq<Seq<char>>) -> Option<
    MapError,
> {
    if index == UNSET {
        None
    } else if index >= palette.len() {
        Some(MapError::IndexOutOfRange { position: position as usize, index })
    } else {
        match color_rgb(palette[index as int]) {
            Ok(_) => None,
            Err(cause) => Some(
                MapError::MalformedColor { position: position as usize, index, cause },
            ),
        }
    }
}

/// The four bytes of a pixel whose board byte is `index`: transparent black where
/// it is unset, else the slot's colour, fully opaque. (Zero bytes stand in where
/// the slot has no colour to give; a board with such a byte is never mapped.)
pub open spec fn pixel_rgba(index: u8, palette: Seq<Seq<char>>) -> Seq<u8> {
    if index == UNSET {
        seq![0u8, 0u8, 0u8, 0u8]
    } else {
        match color_rgb(palette[index as int]) {
            Ok(rgb) => seq![rgb.0, rgb.1, rgb.2, 255u8],
            Err(_) => seq![0u8, 0u8, 0u8, 0u8],
        }
    }
}

/// The fault of the first faulty pixel at or after `from`, if there is one.
pub open spec fn first_fault(board: Seq<u8>, palette: Seq<Seq<char>>, from: int) -> Option<
    MapError,
>
    decreases board.len() - from,
{
    if from < 0 || from >= board.len() {
        None
    } else {
        match pixel_fault(from, board[from], palette) {
            Some(fault) => Some(fault),
            None => first_fault(board, palette, from + 1),
        }
    }
}

/// The pixels of a board without faults: four bytes for each board byte, in the
/// board's order.
pub open spec fn rgba_image(board: Seq<u8>, palette: Seq<Seq<char>>) -> Seq<u8> {
    Seq::new(4 * board.len(), |j: int| pixel_rgba(board[j / 4], palette)[j % 4])
}

/// What mapping `board` over `canvas` gives: the size is checked first, then the
/// first faulty pixel decides; where there is none, every pixel is mapped.
pub open spec fn mapped_board(board: Seq<u8>, canvas: CanvasModel) -> Result<Seq<u8>, MapError> {
    if board.len() != canvas.area() {
        Err(MapError::SizeMismatch { expected: canvas.area() as u64, actual: board.len() as usize })
    } else {
        match first_fault(board, canvas.palette, 0) {
            Some(fault) => Err(fault),
            None => Ok(rgba_image(board, canvas.palette)),
        }
    }
}

/// No pixel from `from` up to, and without, `upto` is faulty.
pub open spec fn faultless(board: Seq<u8>, palette: Seq<Seq<char>>, from: int, upto: int) -> bool {
    forall|i: int| from <= i < upto ==> pixel_fault(i, #[trigger] board[i], palette) is None
}

/// Pixels before `upto` without fault leave the first fault to the pixels from
/// `upto` on.
proof fn lemma_first_fault_skips(board: Seq<u8>, palette: Seq<Seq<char>>, from: int, upto: int)
    requires
        0 <= from <= upto <= board.len(),
        faultless(board, palette, from, upto),
    ensures
        first_fault(board, palette, from) == first_fault(board, palette, upto),
    decreases upto - from,
{
    if from < upto {
        assert(pixel_fault(from, board[from], palette) is None);
        lemma_first_fault_skips(board, palette, from + 1, upto);
    }
}

/// What `first_fault` finds from `from` on: nothing where no pixel is faulty,
/// else the fault of the faulty pixel before which there is none.
pub proof fn lemma_first_fault_is_least(board: Seq<u8>, palette: Seq<Seq<char>>, from: int)
    requires
        0 <= from <= board.len(),
    ensures
        match first_fault(board, palette, from) {
            None => faultless(board, palette, from, board.len() as int),
            Some(fault) => exists|p: int|
                from <= p < board.len() && #[trigger] faultless(board, palette, from, p)
                    && pixel_fault(p, board[p], palette) == Some(fault),
        },
    decreases board.len() - from,
{
    if from < board.len() {
        match pixel_fault(from, board[from], palette) {
            Some(fault) => {
                assert(faultless(board, palette, from, from));
            },
            None => {
                lemma_first_fault_is_least(board, palette, from + 1);
                match first_fault(board, palette, from + 1) {
                    None => {
                        assert(faultless(board, palette, from + 1, board.len() as int));
                    },
                    Some(fault) => {
                        let p = choose|p: int|
                            from + 1 <= p < board.len() && #[trigger] faultless(
                                board,
                                palette,
                                from + 1,
                                p,
                            ) && pixel_fault(p, board[p], palette) == Some(fault);
                        assert(faultless(board, palette, from, p));
                    },
                }
            },
        }
    }
}

/// A board of the canvas's size is mapped if and only if each of its bytes is
/// the unset marker or names a palette slot with a well-formed colour. A byte
/// out of the palette's range, or one that names a malformed colour, fails the
/// whole mapping: nothing is wrapped, clamped or defaulted.
pub proof fn lemma_mapped_iff_no_fault(board: Seq<u8>, canvas: CanvasModel)
    requires
        board.len() == canvas.area(),
    ensures
        mapped_board(board, canvas) is Ok <==> faultless(
            board,
            canvas.palette,
            0,
            board.len() as int,
        ),
        forall|i: int|
            0 <= i < board.len() && #[trigger] board[i] != UNSET && board[i] >= canvas.palette.len()
                ==> mapped_board(board, canvas) is Err,
        forall|i: int|
            0 <= i < board.len() && #[trigger] board[i] != UNSET && board[i] < canvas.palette.len()
                && color_rgb(canvas.palette[board[i] as int]) is Err ==> mapped_board(
                board,
                canvas,
            ) is Err,
{
    lemma_first_fault_is_least(board, canvas.palette, 0);
    assert forall|i: int|
        0 <= i < board.len() && #[trigger] board[i] != UNSET && board[i]
            >= canvas.palette.len() implies mapped_board(board, canvas) is Err by {
        assert(pixel_fault(i, board[i], canvas.palette) is Some);
    }
    assert forall|i: int|
        0 <= i < board.len() && #[trigger] board[i] != UNSET && board[i] < canvas.palette.len()
            && color_rgb(canvas.palette[board[i] as int]) is Err implies mapped_board(
        board,
        canvas,
    ) is Err by {
        assert(pixel_fault(i, board[i], canvas.palette) is Some);
    }
}

/// The pixels of a mapped board are four bytes for each board byte, also for the
/// empty board. The four bytes of pixel `i` are zero where the board byte is the
/// unset marker; else they are the red, green and blue of the palette slot that
/// the byte names, and 255.
pub proof fn lemma_mapped_pixels(board: Seq<u8>, canvas: CanvasModel)
    requires
        mapped_board(board, canvas) is Ok,
    ensures
        mapped_board(board, canvas)->Ok_0.len() == 4 * board.len(),
        forall|i: int|
            0 <= i < board.len() && #[trigger] board[i] == UNSET ==> mapped_board(
                board,
                canvas,
            )->Ok_0.subrange(4 * i, 4 * i + 4) == seq![0u8, 0u8, 0u8, 0u8],
        forall|i: int|
            0 <= i < board.len() && #[trigger] board[i] != UNSET ==> {
                &&& board[i] < canvas.palette.len()
                &&& color_rgb(canvas.palette[board[i] as int]) matches Ok(rgb)
                &&& mapped_board(board, canvas)->Ok_0.subrange(4 * i, 4 * i + 4) == seq![
                    rgb.0,
                    rgb.1,
                    rgb.2,
                    255u8,
                ]
            },
{
    let pixels = mapped_board(board, canvas)->Ok_0;
    lemma_first_fault_is_least(board, canvas.palette, 0);
    assert forall|i: int| 0 <= i < board.len() implies pixels.subrange(4 * i, 4 * i + 4)
        =~= pixel_rgba(#[trigger] board[i], canvas.palette) && pixel_fault(
        i,
        board[i],
        canvas.palette,
    ) is None by {
        assert(pixel_fault(i, board[i], canvas.palette) is None);
        let part = pixels.subrange(4 * i, 4 * i + 4);
        assert forall|k: int| 0 <= k < 4 implies part[k] == pixel_rgba(board[i], canvas.palette)[k] by {
            assert((4 * i + k) / 4 == i);
            assert((4 * i + k) % 4 == k);
        }
    }
    assert forall|i: int| 0 <= i < board.len() && #[trigger] board[i] != UNSET implies {
        &&& board[i] < canvas.palette.len()
        &&& color_rgb(canvas.palette[board[i] as int]) matches Ok(rgb)
        &&& pixels.subrange(4 * i, 4 * i + 4) == seq![rgb.0, rgb.1, rgb.2, 255u8]
    } by {
        assert(pixel_fault(i, board[i], canvas.palette) is None);
    }
}

/// In a mapped board, a pixel whose byte names a slot written as the six
/// hexadecimal digits `RRGGBB`, with a leading `#` or without, is the bytes
/// `RR`, `GG`, `BB` and 255.
pub proof fn lemma_mapped_pixel_of_digits(
    board: Seq<u8>,
    canvas: CanvasModel,
    i: int,
    digits: Seq<char>,
)
    requires
        mapped_board(board, canvas) is Ok,
        0 <= i < board.len(),
        board[i] != UNSET,
        board[i] < canvas.palette.len(),
        digits.len() == 6,
        all_hex(digits),
        canvas.palette[board[i] as int] == digits || canvas.palette[board[i] as int] == seq!['#']
            + digits,
    ensures
        mapped_board(board, canvas)->Ok_0.subrange(4 * i, 4 * i + 4) == seq![
            (16 * hex_digit(digits[0])->0 + hex_digit(digits[1])->0) as u8,
            (16 * hex_digit(digits[2])->0 + hex_digit(digits[3])->0) as u8,
            (16 * hex_digit(digits[4])->0 + hex_digit(digits[5])->0) as u8,
            255u8,
        ],
{
    lemma_mapped_pixels(board, canvas);
    lemma_hash_is_optional(digits);
}

/// The empty board of an empty canvas maps to no pixels at all, and that is no
/// fault.
pub proof fn lemma_empty_board_maps_to_nothing(board: Seq<u8>, canvas: CanvasModel)
    requires
        board.len() == 0,
        canvas.area() == 0,
    ensures
        mapped_board(board, canvas) == Ok::<Seq<u8>, MapError>(Seq::empty()),
{
    assert(rgba_image(board, canvas.palette) =~= Seq::<u8>::empty());
}

/// A board that holds the unset marker alone maps to zero bytes throughout, four
/// for each pixel of the canvas, whatever the palette.
pub proof fn lemma_unset_board_is_transparent(board: Seq<u8>, canvas: CanvasModel)
    requires
        board.len() == canvas.area(),
        forall|i: int| 0 <= i < board.len() ==> board[i] == UNSET,
    ensures
        mapped_board(board, canvas) == Ok::<Seq<u8>, MapError>(
            Seq::new(4 * canvas.area(), |j: int| 0u8),
        ),
{
    lemma_first_fault_skips(board, canvas.palette, 0, board.len() as int);
    assert(rgba_image(board, canvas.palette) =~= Seq::new(4 * canvas.area(), |j: int| 0u8)) by {
        assert forall|j: int| 0 <= j < 4 * board.len() implies rgba_image(
            board,
            canvas.palette,
        )[j] == 0u8 by {
            assert(0 <= j / 4 < board.len());
            assert(0 <= j % 4 < 4);
            assert(board[j / 4] == UNSET);
        }
    }
}

/// Maps a board to RGBA bytes.
///
/// The board must hold `width * height` bytes, and each byte must be the unset
/// marker or name a palette slot with a well-formed colour; the first byte that
/// does neither is reported. Nothing is truncated, wrapped or defaulted.
pub fn map_board(board: &[u8], info: &PartialPxlsInfo) -> (r: Result<Vec<u8>, MapError>)
    ensures
        match mapped_board(board@, info@) {
            Ok(pixels) => r matches Ok(v) && v@ == pixels,
            Err(fault) => r == Err::<Vec<u8>, MapError>(fault),
        },
        r matches Ok(v) ==> v@.len() == 4 * board@.len(),
{
    let n = board.len();
    assert(info.width * info.height <= u64::MAX) by (nonlinear_arith)
        requires
            info.width <= u32::MAX,
            info.height <= u32::MAX,
    ;
    let expected: u64 = (info.width as u64) * (info.height as u64);
    if n as u64 != expected {
        return Err(MapError::SizeMismatch { expected, actual: n });
    }
    let ghost palette = info@.palette;
    let mut pixels: Vec<u8> = Vec::new();
    let mut i: usize = 0;
    while i < n
        invariant
            0 <= i <= n,
            n == board@.len(),
            n == info@.area(),
            palette == info@.palette,
            palette.len() == info.palette@.len(),
            forall|k: int| 0 <= k < palette.len() ==> palette[k] == (#[trigger] info.palette@[k]).value@,
            faultless(board@, palette, 0, i as int),
            pixels@.len() == 4 * i,
            forall|j: int|
                0 <= j < 4 * i ==> #[trigger] pixels@[j] == pixel_rgba(board@[j / 4], palette)[j % 4],
        decreases n - i,
    {
        let index = board[i];
        if index == UNSET {
            pixels.push(0);
            pixels.push(0);
            pixels.push(0);
            pixels.push(0);
        } else {
            let slot = index as usize;
            if slot >= info.palette.len() {
                proof {
                    lemma_first_fault_skips(board@, palette, 0, i as int);
                }
                return Err(MapError::IndexOutOfRange { position: i, index });
            }
            match palette_value_to_rgb(&info.palette[slot].value) {
                Err(cause) => {
                    proof {
                        lemma_first_fault_skips(board@, palette, 0, i as int);
                    }
                    return Err(MapError::MalformedColor { position: i, index, cause });
                },
                Ok((red, green, blue)) => {
                    pixels.push(red);
                    pixels.push(green);
                    pixels.push(blue);
                    pixels.push(255);
                },
            }
        }
        i += 1;
    }
    proof {
        lemma_first_fault_skips(board@, palette, 0, n as int);
        assert(pixels@ =~= rgba_image(board@, palette));
    }
    Ok(pixels)
}

/// Maps the board held in a `Bytes` buffer to RGBA bytes, as [`map_board`] does
/// for a slice.
pub fn map_board_data_palette(board_data: &Bytes, info: &PartialPxlsInfo) -> (r: Result<
    Vec<u8>,
    MapError,
>)
    ensures
        match mapped_board(bytes_content(*board_data), info@) {
            Ok(pixels) => r matches Ok(v) && v@ == pixels,
            Err(fault) => r == Err::<Vec<u8>, MapError>(fault),
        },
        r matches Ok(v) ==> v@.len() == 4 * bytes_content(*board_data).len(),
{
    map_board(bytes_as_slice(board_data), info)
}

} // verus!
