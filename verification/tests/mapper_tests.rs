use bytes::Bytes;
use pxls_canvas::error::{ColorError, MapError};
use pxls_canvas::info::{PartialPxlsInfo, PxlsInfoColor};
use pxls_canvas::mapper::{map_board, map_board_data_palette, UNSET};

fn canvas(width: u32, height: u32, palette: &[&str]) -> PartialPxlsInfo {
    PartialPxlsInfo {
        canvas_code: None,
        width,
        height,
        palette: palette.iter().map(|value| PxlsInfoColor { value: value.to_string() }).collect(),
    }
}

#[test]
fn black_pixel_beside_unset_pixel() {
    let info = canvas(2, 1, &["#000000", "#FFFFFF"]);
    assert_eq!(map_board(&[0, 255], &info), Ok(vec![0, 0, 0, 255, 0, 0, 0, 0]));
    assert_eq!(
        map_board_data_palette(&Bytes::from(vec![0u8, 255]), &info),
        Ok(vec![0, 0, 0, 255, 0, 0, 0, 0])
    );
}

#[test]
fn single_orange_pixel() {
    let info = canvas(1, 1, &["FF8800"]);
    assert_eq!(map_board(&[0], &info), Ok(vec![255, 136, 0, 255]));
    assert_eq!(map_board_data_palette(&Bytes::from_static(&[0]), &info), Ok(vec![255, 136, 0, 255]));
}

#[test]
fn unset_marker_is_255() {
    assert_eq!(UNSET, 255);
}

#[test]
fn unset_board_is_transparent_throughout() {
    let info = canvas(3, 2, &["#123456"]);
    assert_eq!(map_board(&[255; 6], &info), Ok(vec![0; 24]));
    let bare = canvas(3, 2, &[]);
    assert_eq!(map_board(&[255; 6], &bare), Ok(vec![0; 24]));
    let large = canvas(64, 32, &[]);
    assert_eq!(map_board(&vec![255; 64 * 32], &large), Ok(vec![0; 64 * 32 * 4]));
}

#[test]
fn empty_board_gives_empty_pixels() {
    assert_eq!(map_board(&[], &canvas(0, 0, &[])), Ok(vec![]));
    assert_eq!(map_board(&[], &canvas(0, 7, &["#FFFFFF"])), Ok(vec![]));
    assert_eq!(map_board(&[], &canvas(7, 0, &["nonsense"])), Ok(vec![]));
    assert_eq!(map_board_data_palette(&Bytes::new(), &canvas(0, 0, &[])), Ok(vec![]));
}

#[test]
fn four_bytes_for_each_board_byte() {
    let info = canvas(5, 3, &["#000000", "#FFFFFF", "#FF0000"]);
    let board: Vec<u8> = (0..15).map(|i| [0u8, 1, 2, 255][i % 4]).collect();
    let pixels = map_board(&board, &info).unwrap();
    assert_eq!(pixels.len(), 4 * board.len());
    for (i, index) in board.iter().enumerate() {
        let expected: [u8; 4] = match index {
            0 => [0, 0, 0, 255],
            1 => [255, 255, 255, 255],
            2 => [255, 0, 0, 255],
            _ => [0, 0, 0, 0],
        };
        assert_eq!(pixels[4 * i..4 * i + 4], expected);
    }
}

#[test]
fn pixels_follow_the_board_in_row_major_order() {
    let info = canvas(2, 2, &["010203", "#040506", "070809"]);
    assert_eq!(
        map_board(&[2, 0, 255, 1], &info),
        Ok(vec![7, 8, 9, 255, 1, 2, 3, 255, 0, 0, 0, 0, 4, 5, 6, 255])
    );
}

#[test]
fn index_beyond_palette_is_refused() {
    let info = canvas(1, 1, &["#000000", "#111111", "#222222"]);
    assert_eq!(map_board(&[5], &info), Err(MapError::IndexOutOfRange { position: 0, index: 5 }));
    assert_eq!(map_board(&[3], &info), Err(MapError::IndexOutOfRange { position: 0, index: 3 }));
    assert_eq!(map_board(&[2], &info), Ok(vec![0x22, 0x22, 0x22, 255]));
    assert_eq!(
        map_board_data_palette(&Bytes::from(vec![5u8]), &info),
        Err(MapError::IndexOutOfRange { position: 0, index: 5 })
    );
}

#[test]
fn index_is_not_wrapped_into_the_palette() {
    let info = canvas(4, 1, &["#000000", "#111111", "#222222"]);
    assert_eq!(
        map_board(&[0, 1, 2, 254], &info),
        Err(MapError::IndexOutOfRange { position: 3, index: 254 })
    );
}

#[test]
fn empty_palette_takes_unset_pixels_only() {
    let info = canvas(2, 1, &[]);
    assert_eq!(map_board(&[255, 255], &info), Ok(vec![0; 8]));
    assert_eq!(map_board(&[255, 0], &info), Err(MapError::IndexOutOfRange { position: 1, index: 0 }));
}

#[test]
fn malformed_colour_in_use_is_refused() {
    let info = canvas(2, 1, &["#000000", "12G456"]);
    assert_eq!(
        map_board(&[0, 1], &info),
        Err(MapError::MalformedColor { position: 1, index: 1, cause: ColorError::BadDigit })
    );
    let info = canvas(2, 1, &["12345", "#000000"]);
    assert_eq!(
        map_board(&[0, 1], &info),
        Err(MapError::MalformedColor { position: 0, index: 0, cause: ColorError::BadLength })
    );
}

#[test]
fn malformed_colour_out_of_use_does_no_harm() {
    let info = canvas(2, 1, &["#0A0B0C", "12G456"]);
    assert_eq!(map_board(&[0, 255], &info), Ok(vec![10, 11, 12, 255, 0, 0, 0, 0]));
}

#[test]
fn first_faulty_pixel_is_reported() {
    let info = canvas(4, 1, &["#000000", "bad"]);
    assert_eq!(
        map_board(&[0, 9, 1, 7], &info),
        Err(MapError::IndexOutOfRange { position: 1, index: 9 })
    );
    assert_eq!(
        map_board(&[255, 1, 9, 7], &info),
        Err(MapError::MalformedColor { position: 1, index: 1, cause: ColorError::BadLength })
    );
}

#[test]
fn board_of_wrong_size_is_refused() {
    let info = canvas(2, 2, &["#000000"]);
    assert_eq!(map_board(&[0, 0, 0], &info), Err(MapError::SizeMismatch { expected: 4, actual: 3 }));
    assert_eq!(
        map_board(&[0, 0, 0, 0, 0], &info),
        Err(MapError::SizeMismatch { expected: 4, actual: 5 })
    );
    assert_eq!(map_board(&[], &info), Err(MapError::SizeMismatch { expected: 4, actual: 0 }));
    assert_eq!(
        map_board_data_palette(&Bytes::from(vec![0u8; 3]), &info),
        Err(MapError::SizeMismatch { expected: 4, actual: 3 })
    );
}

#[test]
fn size_is_judged_before_pixels() {
    let info = canvas(1, 1, &[]);
    assert_eq!(map_board(&[7, 7], &info), Err(MapError::SizeMismatch { expected: 1, actual: 2 }));
    let empty = canvas(0, 0, &[]);
    assert_eq!(map_board(&[7], &empty), Err(MapError::SizeMismatch { expected: 0, actual: 1 }));
}

#[test]
fn huge_canvas_does_not_overflow_the_size_check() {
    let info = canvas(u32::MAX, u32::MAX, &[]);
    assert_eq!(
        map_board(&[255], &info),
        Err(MapError::SizeMismatch { expected: (u32::MAX as u64) * (u32::MAX as u64), actual: 1 })
    );
    let info = canvas(65536, 65536, &[]);
    assert_eq!(
        map_board(&[], &info),
        Err(MapError::SizeMismatch { expected: 1 << 32, actual: 0 })
    );
}

#[test]
fn unset_marker_wins_over_a_large_palette() {
    let values: Vec<String> = (0..300).map(|k| format!("#0000{:02X}", k % 256)).collect();
    let names: Vec<&str> = values.iter().map(|v| v.as_str()).collect();
    let info = canvas(3, 1, &names);
    assert_eq!(
        map_board(&[254, 255, 0], &info),
        Ok(vec![0, 0, 254, 255, 0, 0, 0, 0, 0, 0, 0, 255])
    );
}

#[test]
fn bytes_and_slice_agree() {
    let info = canvas(3, 2, &["#102030", "405060", "#bad"]);
    for board in [vec![0u8, 1, 255, 1, 0, 255], vec![0, 1, 2, 0, 0, 0], vec![0, 1], vec![9; 6]] {
        assert_eq!(map_board_data_palette(&Bytes::from(board.clone()), &info), map_board(&board, &info));
    }
}

#[test]
fn slice_of_a_larger_buffer_is_read_by_its_own_bounds() {
    let info = canvas(2, 1, &["#010101", "#020202"]);
    let whole = Bytes::from(vec![9u8, 0, 1, 9]);
    assert_eq!(map_board_data_palette(&whole.slice(1..3), &info), Ok(vec![1, 1, 1, 255, 2, 2, 2, 255]));
}
