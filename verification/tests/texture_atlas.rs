use fivetris::render::texture_atlas::{
    TextureError, load_texture_atlas_bytes, tile_column_order, validate_texture_atlas_dimensions,
};
use fivetris::render::cell_texture_index;
use fivetris::game::piece::Cell;

#[test]
fn validation_accepts_current_single_row_strip() {
    let result = validate_texture_atlas_dimensions(300, 30).expect("atlas should validate");

    assert_eq!(result, (30, 30, 10));
}

#[test]
fn validation_rejects_zero_dimensions() {
    let error = validate_texture_atlas_dimensions(0, 30).expect_err("zero width should fail");

    assert_eq!(
        error,
        TextureError::InvalidDimensions {
            width: 0,
            height: 30,
        }
    );
}

#[test]
fn validation_rejects_non_square_tiles() {
    let error = validate_texture_atlas_dimensions(320, 30)
        .expect_err("unexpected strip shape should fail");

    assert_eq!(
        error,
        TextureError::InvalidAspectRatio {
            width: 320,
            height: 30,
            expected_tiles: 10,
        }
    );
}

#[test]
fn validation_saturates_the_expected_width() {
    assert_eq!(
        validate_texture_atlas_dimensions(u32::MAX, 500_000_000),
        Ok((500_000_000, 500_000_000, 10))
    );
}

#[test]
fn bytes_that_hold_no_image_are_an_io_error() {
    match load_texture_atlas_bytes("broken.png", &[1, 2, 3, 4]) {
        Err(TextureError::Io(_)) => {}
        other => panic!("expected an io error, got {:?}", other),
    }
}

#[test]
fn texture_error_messages() {
    assert_eq!(
        TextureError::InvalidAspectRatio {
            width: 320,
            height: 30,
            expected_tiles: 10,
        }
        .message(),
        "texture atlas must be a single-row strip with 10 equal tiles, got 320x30"
    );
    assert_eq!(
        TextureError::InvalidDimensions {
            width: 0,
            height: 7,
        }
        .message(),
        "texture atlas dimensions must be non-zero, got 0x7"
    );
}

#[test]
fn tiles_follow_the_strip_column_order() {
    assert_eq!(tile_column_order(0), 9);
    assert_eq!(tile_column_order(1), 4);
    assert_eq!(tile_column_order(9), 8);
    assert_eq!(tile_column_order(40), 8);
    assert_eq!(cell_texture_index(Cell::Empty), 0);
    assert_eq!(cell_texture_index(Cell::GhostBlock), 9);
}
