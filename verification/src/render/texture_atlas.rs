use vstd::prelude::*;

use crate::game::text::{decimal, push_decimal, push_str, str_chars};

verus! {

/// The number of tiles a texture strip holds.
pub const EXPECTED_TILE_COUNT: u32 = 10;

/// Which column of the strip each tile index draws from.
pub open spec fn tile_column(index: int) -> int {
    if index == 0 {
        9
    } else if index == 1 {
        4
    } else if index == 2 {
        5
    } else if index == 3 {
        3
    } else if index == 4 {
        2
    } else if index == 5 {
        0
    } else if index == 6 {
        1
    } else if index == 7 {
        6
    } else if index == 8 {
        7
    } else {
        8
    }
}

/// The column of the strip that tile `index` is drawn from; indices past
/// the last tile draw the last.
pub fn tile_column_order(index: usize) -> (r: u32)
    ensures
        r == tile_column(if index > 9 { 9 } else { index as int }),
{
    let order: [u32; 10] = [9, 4, 5, 3, 2, 0, 1, 6, 7, 8];
    let i = if index > 9 {
        9
    } else {
        index
    };
    assert(order@ =~= seq![9u32, 4, 5, 3, 2, 0, 1, 6, 7, 8]);
    order[i]
}

/// A block texture: one row of equal square tiles, and its pixels as red,
/// green, blue and alpha bytes.
#[derive(Debug, Clone)]
pub struct TextureAtlas {
    pub path: String,
    pub width: u32,
    pub height: u32,
    pub rgba: Vec<u8>,
    pub tile_width: u32,
    pub tile_height: u32,
    pub tile_count: u32,
}

/// Why a texture could not be used.
#[derive(Debug, Clone, PartialEq, Eq)]
pub enum TextureError {
    Io(String),
    InvalidDimensions { width: u32, height: u32 },
    InvalidAspectRatio { width: u32, height: u32, expected_tiles: u32 },
}

impl TextureError {
    /// The message shown for the error.
    pub fn message(&self) -> (r: String)
        ensures
            match self {
                TextureError::Io(m) => r@ == "texture atlas load error: "@ + m@,
                TextureError::InvalidDimensions { width, height } => r@
                    == "texture atlas dimensions must be non-zero, got "@ + decimal(*width as nat)
                    + "x"@ + decimal(*height as nat),
                TextureError::InvalidAspectRatio { width, height, expected_tiles } => r@
                    == "texture atlas must be a single-row strip with "@ + decimal(
                    *expected_tiles as nat,
                ) + " equal tiles, got "@ + decimal(*width as nat) + "x"@ + decimal(
                    *height as nat,
                ),
            },
    {
        let mut r = String::new();
        match self {
            TextureError::Io(m) => {
                push_str(&mut r, "texture atlas load error: ");
                push_str(&mut r, m.as_str());
            },
            TextureError::InvalidDimensions { width, height } => {
                push_str(&mut r, "texture atlas dimensions must be non-zero, got ");
                push_decimal(&mut r, *width as usize);
                push_str(&mut r, "x");
                push_decimal(&mut r, *height as usize);
            },
            TextureError::InvalidAspectRatio { width, height, expected_tiles } => {
                push_str(&mut r, "texture atlas must be a single-row strip with ");
                push_decimal(&mut r, *expected_tiles as usize);
                push_str(&mut r, " equal tiles, got ");
                push_decimal(&mut r, *width as usize);
                push_str(&mut r, "x");
                push_decimal(&mut r, *height as usize);
            },
        }
        r
    }
}

/// The tile size and count of a strip `width` by `height`: it must not be
/// empty, and its width must be ten times its height (as a saturating
/// product).
pub open spec fn spec_validate_dimensions(width: u32, height: u32) -> Result<(u32, u32, u32), TextureError> {
    if width == 0 || height == 0 {
        Err(TextureError::InvalidDimensions { width, height })
    } else if width != (if height * 10 > u32::MAX { u32::MAX as int } else { height * 10 }) {
        Err(TextureError::InvalidAspectRatio { width, height, expected_tiles: 10 })
    } else {
        Ok((height, height, 10))
    }
}

/// The tile width, tile height and tile count of a strip of the given size,
/// or why it is no texture strip.
pub fn validate_texture_atlas_dimensions(width: u32, height: u32) -> (r: Result<(u32, u32, u32), TextureError>)
    ensures
        r == spec_validate_dimensions(width, height),
{
    if width == 0 || height == 0 {
        return Err(TextureError::InvalidDimensions { width, height });
    }
    let product: u64 = (height as u64) * (EXPECTED_TILE_COUNT as u64);
    let limit: u64 = u32::MAX as u64;
    let expected: u64 = if product > limit {
        limit
    } else {
        product
    };
    if (width as u64) != expected {
        return Err(
            TextureError::InvalidAspectRatio { width, height, expected_tiles: EXPECTED_TILE_COUNT },
        );
    }
    Ok((height, height, EXPECTED_TILE_COUNT))
}

/// The image that the image library decodes from `bytes`: its width, its
/// height and its pixels as red, green, blue and alpha bytes; `None` where
/// it reads no image.
pub uninterp spec fn decoded_image(bytes: Seq<u8>) -> Option<(u32, u32, Seq<u8>)>;

/// `image::load_from_memory`, then `into_rgba8`: decodes an image file held
/// in memory into RGBA pixels. The contract names the result; on failure
/// only the library's message comes back, and nothing is stated of it.
#[verifier::external_body]
fn decode_rgba(bytes: &[u8]) -> (r: Result<(u32, u32, Vec<u8>), String>)
    ensures
        match decoded_image(bytes@) {
            Some(img) => r matches Ok(d) && d.0 == img.0 && d.1 == img.1 && d.2@ == img.2,
            None => r is Err,
        },
{
    match image::load_from_memory(bytes) {
        Ok(decoded) => {
            let rgba = decoded.into_rgba8();
            let (width, height) = rgba.dimensions();
            Ok((width, height, rgba.into_raw()))
        },
        Err(error) => Err(error.to_string()),
    }
}

/// The texture an image file's bytes give, known by `path`.
pub open spec fn atlas_from(atlas: TextureAtlas, path: Seq<char>, img: (u32, u32, Seq<u8>)) -> bool {
    &&& atlas.path@ == path
    &&& atlas.width == img.0
    &&& atlas.height == img.1
    &&& atlas.rgba@ == img.2
    &&& spec_validate_dimensions(img.0, img.1) == Ok::<(u32, u32, u32), TextureError>(
        (atlas.tile_width, atlas.tile_height, atlas.tile_count),
    )
}

/// Reads a texture strip from an image file's bytes, known by `path`: it is
/// refused where the bytes hold no image (`Io`, with the image library's
/// message) or where the image is no strip of ten square tiles.
pub fn texture_atlas_from_bytes(path: String, bytes: &[u8]) -> (r: Result<TextureAtlas, TextureError>)
    ensures
        match decoded_image(bytes@) {
            None => r is Err && r->Err_0 is Io,
            Some(img) => match spec_validate_dimensions(img.0, img.1) {
                Err(e) => r == Err::<TextureAtlas, TextureError>(e),
                Ok(_) => r matches Ok(a) && atlas_from(a, path@, img),
            },
        },
{
    let (width, height, rgba) = match decode_rgba(bytes) {
        Ok(d) => d,
        Err(message) => return Err(TextureError::Io(message)),
    };
    let (tile_width, tile_height, tile_count) = match validate_texture_atlas_dimensions(width, height) {
        Ok(t) => t,
        Err(e) => return Err(e),
    };
    Ok(TextureAtlas { path, width, height, rgba, tile_width, tile_height, tile_count })
}

/// Reads a texture strip that ships with the game, known as `embedded:`
/// and its name.
pub fn load_texture_atlas_bytes(name: &str, bytes: &[u8]) -> (r: Result<TextureAtlas, TextureError>)
    ensures
        match decoded_image(bytes@) {
            None => r is Err && r->Err_0 is Io,
            Some(img) => match spec_validate_dimensions(img.0, img.1) {
                Err(e) => r == Err::<TextureAtlas, TextureError>(e),
                Ok(_) => r matches Ok(a) && atlas_from(a, "embedded:"@ + name@, img),
            },
        },
{
    let mut path = String::new();
    push_str(&mut path, "embedded:");
    push_str(&mut path, name);
    texture_atlas_from_bytes(path, bytes)
}

} // verus!
