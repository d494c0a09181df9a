use fivetris::platform::dib::{DibError, bgra_to_rgba, dib_to_image};

fn header(width: i32, height: i32, bits: u16) -> Vec<u8> {
    let mut h = Vec::new();
    h.extend_from_slice(&40u32.to_le_bytes());
    h.extend_from_slice(&width.to_le_bytes());
    h.extend_from_slice(&height.to_le_bytes());
    h.extend_from_slice(&1u16.to_le_bytes());
    h.extend_from_slice(&bits.to_le_bytes());
    h.extend_from_slice(&[0u8; 24]);
    h
}

#[test]
fn bottom_up_rows_are_turned_over_and_channels_swapped() {
    let mut data = header(2, 2, 32);
    // Stored bottom row first, each pixel blue, green, red, alpha.
    data.extend_from_slice(&[1, 2, 3, 4, 5, 6, 7, 8]);
    data.extend_from_slice(&[9, 10, 11, 12, 13, 14, 15, 16]);
    let image = dib_to_image(&data).unwrap();
    assert_eq!((image.width, image.height), (2, 2));
    assert_eq!(
        image.rgba,
        vec![11, 10, 9, 12, 15, 14, 13, 16, 3, 2, 1, 4, 7, 6, 5, 8]
    );
}

#[test]
fn top_down_rows_keep_their_order() {
    let mut data = header(1, -2, 32);
    data.extend_from_slice(&[1, 2, 3, 4, 5, 6, 7, 8]);
    let image = dib_to_image(&data).unwrap();
    assert_eq!((image.width, image.height), (1, 2));
    assert_eq!(image.rgba, vec![3, 2, 1, 4, 7, 6, 5, 8]);
}

#[test]
fn short_or_narrow_bitmaps_are_refused() {
    assert_eq!(dib_to_image(&[0u8; 39]).unwrap_err(), DibError::TooSmall);
    assert_eq!(DibError::TooSmall.message(), "small DIB");
    let data = header(1, 1, 24);
    let error = dib_to_image(&data).unwrap_err();
    assert_eq!(error, DibError::UnsupportedBitCount(24));
    assert_eq!(error.message(), "24bpp unsupported");
}

#[test]
fn screen_pixels_are_swapped_in_place() {
    let mut pixels = vec![1, 2, 3, 4, 5, 6, 7, 8];
    bgra_to_rgba(&mut pixels);
    assert_eq!(pixels, vec![3, 2, 1, 4, 7, 6, 5, 8]);
}
