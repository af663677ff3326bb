use vstd::prelude::*;

use crate::codec::ImageData;
use crate::error::{Error, Result};

verus! {

/// How to crop an image.
#[derive(Debug, Clone, Copy, PartialEq, Eq, Structural)]
pub enum CropMode {
    /// The rectangle of the given size whose top-left corner is at `(x, y)`.
    Region { x: u32, y: u32, width: u32, height: u32 },
    /// The largest centered rectangle with the given width-to-height ratio.
    AspectRatio { width: u32, height: u32 },
}

/// Size of the largest rectangle with ratio `aw:ah` inside a `w` x `h`
/// image (sides rounded down).
pub open spec fn aspect_fit(w: int, h: int, aw: int, ah: int) -> (int, int) {
    if w * ah > h * aw {
        (h * aw / ah, h)
    } else {
        (w, w * ah / aw)
    }
}

/// The rectangle `(x, y, width, height)` that `mode` selects from a `w` x
/// `h` image, or `None` when the mode selects no pixels of it.
pub open spec fn crop_rect(w: int, h: int, mode: CropMode) -> Option<(int, int, int, int)> {
    match mode {
        CropMode::Region { x, y, width, height } => {
            if width == 0 || height == 0 || x + width > w || y + height > h {
                None
            } else {
                Some((x as int, y as int, width as int, height as int))
            }
        },
        CropMode::AspectRatio { width: aw, height: ah } => {
            if aw == 0 || ah == 0 {
                None
            } else {
                let (cw, ch) = aspect_fit(w, h, aw as int, ah as int);
                if cw == 0 || ch == 0 {
                    None
                } else {
                    Some(((w - cw) / 2, (h - ch) / 2, cw, ch))
                }
            }
        },
    }
}

/// Why `mode` selects nothing from a `w` x `h` image.
pub open spec fn crop_error(w: int, h: int, mode: CropMode) -> Seq<char> {
    match mode {
        CropMode::Region { x, y, width, height } => {
            if width == 0 || height == 0 {
                "crop region must have a non-zero width and height"@
            } else {
                "crop region lies outside the image"@
            }
        },
        CropMode::AspectRatio { width: aw, height: ah } => {
            if aw == 0 || ah == 0 {
                "aspect ratio values must be non-zero"@
            } else {
                "image is too small for the aspect ratio"@
            }
        },
    }
}

/// Pixels of the `cw` x `ch` rectangle at `(x, y)` of RGBA pixels `d` of
/// an image `w` pixels wide, row by row.
pub open spec fn region_pixels(d: Seq<u8>, w: int, x: int, y: int, cw: int, ch: int) -> Seq<u8> {
    Seq::new((cw * ch * 4) as nat, |j: int| d[((y + j / (cw * 4)) * w + x) * 4 + j % (cw * 4)])
}

/// Byte `b` of row `r` of a region sits at `r * row + b` of the output.
proof fn lemma_row_position(r: int, b: int, row: int)
    requires
        0 <= r,
        0 <= b < row,
    ensures
        (r * row + b) / row == r,
        (r * row + b) % row == b,
{
    vstd::arithmetic::div_mod::lemma_fundamental_div_mod_converse(r * row + b, row, r, b);
}

/// Copy the `cw` x `ch` rectangle at `(x, y)` out of an image.
pub fn copy_region(image: &ImageData, x: u32, y: u32, cw: u32, ch: u32) -> (r: Vec<u8>)
    requires
        image.well_formed(),
        1 <= cw,
        1 <= ch,
        x + cw <= image.width,
        y + ch <= image.height,
    ensures
        r@ == region_pixels(image.data@, image.width as int, x as int, y as int, cw as int, ch as int),
{
    let ghost d = image.data@;
    let ghost wi = image.width as int;
    let ghost hi = image.height as int;
    let ghost rowi = cw * 4;
    let w = image.width as usize;
    let len = image.data.len();
    proof {
        assert(cw * 4 <= wi * hi * 4) by (nonlinear_arith)
            requires
                cw <= wi,
                1 <= hi,
        ;
        assert((ch as int) * rowi <= wi * hi * 4) by (nonlinear_arith)
            requires
                cw <= wi,
                ch <= hi,
                rowi == cw * 4,
        ;
    }
    let row_bytes = (cw as usize) * 4;
    let mut out: Vec<u8> = Vec::new();
    let mut r: usize = 0;
    while r < ch as usize
        invariant
            d == image.data@,
            d.len() == wi * hi * 4,
            len == d.len(),
            wi == image.width,
            hi == image.height,
            w == wi,
            row_bytes == rowi,
            rowi == cw * 4,
            1 <= cw,
            x + cw <= wi,
            y + ch <= hi,
            r <= ch,
            out@.len() == r * rowi,
            forall|j: int|
                0 <= j < out@.len() ==> #[trigger] out@[j] == d[((y + j / rowi) * wi + x) * 4 + j % rowi],
        decreases ch - r,
    {
        proof {
            assert((y + r) * wi + x <= (y + r) * wi + wi) by (nonlinear_arith)
                requires
                    x + cw <= wi,
                    1 <= cw,
            ;
            assert(((y + r) * wi + x) * 4 + rowi <= wi * hi * 4) by (nonlinear_arith)
                requires
                    0 <= r,
                    y + r + 1 <= hi,
                    x + cw <= wi,
                    rowi == cw * 4,
            ;
        }
        let start = ((y as usize + r) * w + x as usize) * 4;
        let mut b: usize = 0;
        while b < row_bytes
            invariant
                d == image.data@,
                d.len() == wi * hi * 4,
                row_bytes == rowi,
                rowi == cw * 4,
                1 <= cw,
                start == ((y + r) * wi + x) * 4,
                start + rowi <= d.len(),
                len == d.len(),
                b <= rowi,
                0 <= r,
                out@.len() == r * rowi + b,
                forall|j: int|
                    0 <= j < out@.len() ==> #[trigger] out@[j] == d[((y + j / rowi) * wi + x) * 4 + j % rowi],
            decreases rowi - b,
        {
            proof {
                lemma_row_position(r as int, b as int, rowi);
            }
            out.push(image.data[start + b]);
            b = b + 1;
        }
        proof {
            assert(out@.len() == (r + 1) * rowi) by (nonlinear_arith)
                requires
                    out@.len() == r * rowi + rowi,
            ;
        }
        r = r + 1;
    }
    proof {
        assert(out@.len() == cw * ch * 4) by (nonlinear_arith)
            requires
                out@.len() == ch * rowi,
                rowi == cw * 4,
        ;
        assert(out@ =~= region_pixels(d, wi, x as int, y as int, cw as int, ch as int));
    }
    out
}

/// Crop an image.
pub fn crop(image: &ImageData, mode: &CropMode) -> (r: Result<ImageData>)
    requires
        image.well_formed(),
    ensures
        match crop_rect(image.width as int, image.height as int, *mode) {
            Some((x, y, cw, ch)) => r matches Ok(out) && out.well_formed() && out.width == cw && out.height == ch && out.data@
                == region_pixels(image.data@, image.width as int, x, y, cw, ch),
            None => r matches Err(Error::Crop(m)) && m@ == crop_error(image.width as int, image.height as int, *mode),
        },
{
    let w = image.width;
    let h = image.height;
    let (x, y, cw, ch) = match *mode {
        CropMode::Region { x, y, width, height } => {
            if width == 0 || height == 0 {
                return Err(Error::Crop(String::from_str("crop region must have a non-zero width and height")));
            }
            if (x as u64) + (width as u64) > (w as u64) || (y as u64) + (height as u64) > (h as u64) {
                return Err(Error::Crop(String::from_str("crop region lies outside the image")));
            }
            (x, y, width, height)
        },
        CropMode::AspectRatio { width: aw, height: ah } => {
            if aw == 0 || ah == 0 {
                return Err(Error::Crop(String::from_str("aspect ratio values must be non-zero")));
            }
            let (cw, ch) = fit_aspect(w, h, aw, ah);
            if cw == 0 || ch == 0 {
                return Err(Error::Crop(String::from_str("image is too small for the aspect ratio")));
            }
            ((w - cw) / 2, (h - ch) / 2, cw, ch)
        },
    };
    let data = copy_region(image, x, y, cw, ch);
    proof {
        assert(data@.len() == cw * ch * 4);
    }
    Ok(ImageData::new(cw, ch, data))
}

/// Size of the largest rectangle with ratio `aw:ah` inside a `w` x `h` image.
pub fn fit_aspect(w: u32, h: u32, aw: u32, ah: u32) -> (r: (u32, u32))
    requires
        aw >= 1,
        ah >= 1,
    ensures
        (r.0 as int, r.1 as int) == aspect_fit(w as int, h as int, aw as int, ah as int),
        r.0 <= w,
        r.1 <= h,
{
    proof {
        assert((w as int) * ah <= u64::MAX && (h as int) * aw <= u64::MAX) by (nonlinear_arith)
            requires
                w <= u32::MAX,
                h <= u32::MAX,
                aw <= u32::MAX,
                ah <= u32::MAX,
        ;
    }
    let wide = (w as u64) * (ah as u64) > (h as u64) * (aw as u64);
    if wide {
        let cw = (h as u64) * (aw as u64) / (ah as u64);
        proof {
            assert((h as int) * aw / (ah as int) <= w) by (nonlinear_arith)
                requires
                    (w as int) * ah > (h as int) * aw,
                    ah >= 1,
                    h >= 0,
                    aw >= 1,
            ;
        }
        (cw as u32, h)
    } else {
        let ch = (w as u64) * (ah as u64) / (aw as u64);
        proof {
            assert((w as int) * ah / (aw as int) <= h) by (nonlinear_arith)
                requires
                    (w as int) * ah <= (h as int) * aw,
                    aw >= 1,
                    w >= 0,
                    ah >= 1,
            ;
        }
        (w, ch as u32)
    }
}

/// An aspect-ratio crop is centered in the image and spans its full width
/// or its full height.
pub proof fn aspect_crop_is_centered(w: u32, h: u32, aw: u32, ah: u32)
    requires
        aw >= 1,
        ah >= 1,
    ensures
        crop_rect(w as int, h as int, CropMode::AspectRatio { width: aw, height: ah }) matches Some((x, y, cw, ch)) ==> {
            &&& x + cw <= w && y + ch <= h
            &&& x == (w - cw) / 2 && y == (h - ch) / 2
            &&& cw == w || ch == h
        },
{
    let (cw, ch) = aspect_fit(w as int, h as int, aw as int, ah as int);
    if (w as int) * ah > (h as int) * aw {
        assert((h as int) * aw / (ah as int) <= w) by (nonlinear_arith)
            requires
                (w as int) * ah > (h as int) * aw,
                ah >= 1,
                h >= 0,
                aw >= 1,
        ;
    } else {
        assert((w as int) * ah / (aw as int) <= h) by (nonlinear_arith)
            requires
                (w as int) * ah <= (h as int) * aw,
                aw >= 1,
                w >= 0,
                ah >= 1,
        ;
    }
}

} // verus!
