use vstd::prelude::*;

use crate::game::text::{decimal, push_decimal, push_str};
use crate::media::wav::{le_u16, le_u32, read_u16, read_u32};
use crate::platform::ScreenshotImage;

verus! {

/// The size of the header a device-independent bitmap starts with.
pub const DIB_HEADER_SIZE: usize = 40;

/// Why a device-independent bitmap could not be read.
#[derive(Debug, Clone, Copy, PartialEq, Eq, Structural)]
pub enum DibError {
    /// The data is shorter than its header.
    TooSmall,
    /// The pixels are not 32 bits wide; the width found.
    UnsupportedBitCount(u16),
}

impl DibError {
    /// The message shown for the error.
    pub fn message(&self) -> (r: String)
        ensures
            match self {
                DibError::TooSmall => r@ == "small DIB"@,
                DibError::UnsupportedBitCount(n) => r@ == decimal(*n as nat) + "bpp unsupported"@,
            },
    {
        let mut r = String::new();
        match self {
            DibError::TooSmall => push_str(&mut r, "small DIB"),
            DibError::UnsupportedBitCount(n) => {
                push_decimal(&mut r, *n as usize);
                push_str(&mut r, "bpp unsupported");
            },
        }
        r
    }
}

/// The width stored in the header, its bits read as unsigned.
pub open spec fn dib_width(d: Seq<u8>) -> int {
    le_u32(d, 4)
}

/// The height stored in the header, signed: positive where the rows are
/// stored bottom up.
pub open spec fn dib_height_field(d: Seq<u8>) -> int {
    let u = le_u32(d, 8);
    if u >= 0x8000_0000 {
        u - 0x1_0000_0000
    } else {
        u
    }
}

/// The number of rows.
pub open spec fn dib_height(d: Seq<u8>) -> int {
    let v = dib_height_field(d);
    if v < 0 {
        -v
    } else {
        v
    }
}

/// The bits per pixel stored in the header.
pub open spec fn dib_bit_count(d: Seq<u8>) -> int {
    le_u16(d, 14)
}

/// Whether the pixels of a 32-bit bitmap lie within its data, their number
/// counted in `u32`.
pub open spec fn dib_pixels_fit(d: Seq<u8>) -> bool {
    &&& dib_width(d) * dib_height(d) <= u32::MAX
    &&& 40 + 4 * (dib_width(d) * dib_height(d)) <= d.len()
}

/// The channel of a stored blue, green, red, alpha pixel that gives channel
/// `c` of a red, green, blue, alpha one.
pub open spec fn swapped(c: int) -> int {
    if c == 0 {
        2
    } else if c == 2 {
        0
    } else {
        c
    }
}

/// The `w` pixels stored from `start` on, as red, green, blue, alpha bytes.
pub open spec fn rgba_row(d: Seq<u8>, start: int, w: int) -> Seq<u8> {
    Seq::new((4 * w) as nat, |i: int| d[start + i - i % 4 + swapped(i % 4)])
}

/// The stored row shown `r` rows from the top.
pub open spec fn source_row(d: Seq<u8>, r: int) -> int {
    if dib_height_field(d) > 0 {
        dib_height(d) - 1 - r
    } else {
        r
    }
}

/// The first `n` rows of the picture, top row first.
pub open spec fn dib_rows(d: Seq<u8>, n: int) -> Seq<u8>
    decreases n,
{
    if n <= 0 {
        Seq::empty()
    } else {
        dib_rows(d, n - 1) + rgba_row(d, 40 + 4 * dib_width(d) * source_row(d, n - 1), dib_width(d))
    }
}

/// The picture a device-independent bitmap holds, or why it cannot be
/// read: the data must hold the header and have 32-bit pixels.
pub open spec fn spec_dib_image(d: Seq<u8>) -> Result<(u32, u32, Seq<u8>), DibError> {
    if d.len() < 40 {
        Err(DibError::TooSmall)
    } else if dib_bit_count(d) != 32 {
        Err(DibError::UnsupportedBitCount(dib_bit_count(d) as u16))
    } else {
        Ok((dib_width(d) as u32, dib_height(d) as u32, dib_rows(d, dib_height(d))))
    }
}

/// Whether `d` can be read without running past its end.
pub open spec fn dib_readable(d: Seq<u8>) -> bool {
    d.len() >= 40 && dib_bit_count(d) == 32 ==> dib_pixels_fit(d)
}

/// Appends row `row_start..` of `w` pixels, as red, green, blue, alpha.
fn push_row(data: &[u8], start: usize, w: usize, out: &mut Vec<u8>)
    requires
        start + 4 * w <= data.len(),
    ensures
        final(out)@ == old(out)@ + rgba_row(data@, start as int, w as int),
{
    let mut x: usize = 0;
    while x < w
        invariant
            start + 4 * w <= data.len(),
            x <= w,
            out@ == old(out)@ + rgba_row(data@, start as int, w as int).subrange(0, 4 * x as int),
        decreases w - x,
    {
        let p = start + 4 * x;
        let ghost before = out@;
        out.push(data[p + 2]);
        out.push(data[p + 1]);
        out.push(data[p]);
        out.push(data[p + 3]);
        proof {
            let row = rgba_row(data@, start as int, w as int);
            assert(row.subrange(0, 4 * (x + 1)) =~= row.subrange(0, 4 * x as int).push(row[4 * x]).push(
                row[4 * x + 1],
            ).push(row[4 * x + 2]).push(row[4 * x + 3]));
        }
        x += 1;
    }
    assert(rgba_row(data@, start as int, w as int).subrange(0, 4 * w as int) =~= rgba_row(
        data@,
        start as int,
        w as int,
    ));
}

/// Reads the picture of a device-independent bitmap held in memory: see
/// `spec_dib_image`.
pub fn dib_to_image(data: &[u8]) -> (r: Result<ScreenshotImage, DibError>)
    requires
        dib_readable(data@),
    ensures
        match r {
            Ok(image) => spec_dib_image(data@) == Ok::<(u32, u32, Seq<u8>), DibError>(
                (image.width, image.height, image.rgba@),
            ),
            Err(e) => spec_dib_image(data@) == Err::<(u32, u32, Seq<u8>), DibError>(e),
        },
{
    if data.len() < DIB_HEADER_SIZE {
        return Err(DibError::TooSmall);
    }
    let bit_count = read_u16(data, 14);
    if bit_count != 32 {
        return Err(DibError::UnsupportedBitCount(bit_count));
    }
    let w = read_u32(data, 4);
    let raw = read_u32(data, 8);
    let bottom_up = raw > 0 && raw < 0x8000_0000;
    let h: u32 = if raw >= 0x8000_0000 {
        ((0x1_0000_0000u64 - raw as u64) as u32)
    } else {
        raw
    };
    assert(h == dib_height(data@));
    assert(bottom_up == (dib_height_field(data@) > 0));
    proof {
        assert(4 * (w as int) * (h as int) == 4 * (w * h)) by (nonlinear_arith);
    }
    let n = data.len();
    let mut out: Vec<u8> = Vec::new();
    let mut r: u32 = 0;
    while r < h
        invariant
            dib_pixels_fit(data@),
            data@.len() >= 40,
            w == dib_width(data@),
            h == dib_height(data@),
            bottom_up == (dib_height_field(data@) > 0),
            n == data@.len(),
            r <= h,
            out@ == dib_rows(data@, r as int),
        decreases h - r,
    {
        let source: u32 = if bottom_up {
            h - 1 - r
        } else {
            r
        };
        assert(source == source_row(data@, r as int));
        proof {
            assert((source as int + 1) * (w as int) <= (h as int) * (w as int)) by (nonlinear_arith)
                requires
                    source < h,
            ;
            assert(w as int <= (h as int) * (w as int)) by (nonlinear_arith)
                requires
                    r < h,
            ;
            assert(4 * (w as int) * (source as int) + 4 * (w as int) == 4 * ((source as int + 1) * (
            w as int))) by (nonlinear_arith);
            assert((source as int) * (4 * (w as int)) == 4 * (w as int) * (source as int)) by (nonlinear_arith);
        }
        let row_bytes = 4 * (w as usize);
        let start = DIB_HEADER_SIZE + (source as usize) * row_bytes;
        assert(start == 40 + 4 * dib_width(data@) * source_row(data@, r as int)) by (nonlinear_arith)
            requires
                start == 40 + (source as int) * row_bytes,
                row_bytes == 4 * dib_width(data@),
                source == source_row(data@, r as int),
        ;
        push_row(data, start, w as usize, &mut out);
        r += 1;
    }
    Ok(ScreenshotImage { width: w, height: h, rgba: out })
}

/// Turns blue, green, red, alpha pixels into red, green, blue, alpha ones in
/// place.
pub fn bgra_to_rgba(pixels: &mut Vec<u8>)
    requires
        old(pixels)@.len() % 4 == 0,
    ensures
        final(pixels)@ == rgba_row(old(pixels)@, 0, (old(pixels)@.len() / 4) as int),
{
    let n = pixels.len();
    let ghost src = pixels@;
    let mut k: usize = 0;
    while k < n
        invariant
            n == src.len(),
            n % 4 == 0,
            k % 4 == 0,
            k <= n,
            pixels@.len() == n,
            forall|i: int| 0 <= i < k ==> pixels@[i] == rgba_row(src, 0, n as int / 4)[i],
            forall|i: int| k <= i < n ==> pixels@[i] == src[i],
        decreases n - k,
    {
        let blue = pixels[k];
        let red = pixels[k + 2];
        pixels.set(k, red);
        pixels.set(k + 2, blue);
        k += 4;
    }
    assert(pixels@ =~= rgba_row(src, 0, n as int / 4));
}

} // verus!
