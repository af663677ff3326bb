use vstd::prelude::*;

use crate::codec::ImageData;
use crate::error::{Error, Result};

verus! {

/// How to extend an image onto a larger canvas.
#[derive(Debug, Clone, Copy, PartialEq, Eq, Structural)]
pub enum ExtendMode {
    /// The smallest canvas with the given width-to-height ratio that holds
    /// the image.
    AspectRatio { width: u32, height: u32 },
    /// A canvas of the given size, at least as large as the image.
    Size { width: u32, height: u32 },
}

/// Color of the added canvas area.
#[derive(Debug, Clone, Copy)]
pub enum FillColor {
    /// This RGBA color.
    Solid([u8; 4]),
    /// Fully transparent black.
    Transparent,
}

/// RGBA bytes of a fill color.
pub open spec fn fill_rgba(fill: FillColor) -> Seq<u8> {
    match fill {
        FillColor::Solid(c) => c@,
        FillColor::Transparent => seq![0u8, 0, 0, 0],
    }
}

/// Size of the smallest canvas with ratio `aw:ah` that holds a `w` x `h`
/// image (sides rounded up).
pub open spec fn aspect_cover(w: int, h: int, aw: int, ah: int) -> (int, int) {
    if w * ah > h * aw {
        (w, (w * ah + aw - 1) / aw)
    } else {
        ((h * aw + ah - 1) / ah, h)
    }
}

/// The canvas size for `mode` before the size limits are applied.
pub open spec fn requested_canvas(w: int, h: int, mode: ExtendMode) -> Option<(int, int)> {
    match mode {
        ExtendMode::Size { width, height } => {
            if width < w || height < h {
                None
            } else {
                Some((width as int, height as int))
            }
        },
        ExtendMode::AspectRatio { width: aw, height: ah } => {
            if aw == 0 || ah == 0 {
                None
            } else {
                Some(aspect_cover(w, h, aw as int, ah as int))
            }
        },
    }
}

/// Canvas size that `mode` gives a `w` x `h` image, or `None` when it
/// gives none: a target size smaller than the image, a zero ratio, or a
/// canvas whose sides or RGBA bytes exceed what the machine can index.
pub open spec fn canvas_size(w: int, h: int, mode: ExtendMode) -> Option<(int, int)> {
    match requested_canvas(w, h, mode) {
        Some((cw, ch)) => if cw <= u32::MAX && ch <= u32::MAX && cw * ch * 4 <= usize::MAX {
            Some((cw, ch))
        } else {
            None
        },
        None => None,
    }
}

/// Why `mode` gives no canvas for a `w` x `h` image.
pub open spec fn extend_error(w: int, h: int, mode: ExtendMode) -> Seq<char> {
    match requested_canvas(w, h, mode) {
        Some(_) => "extended image is too large"@,
        None => match mode {
            ExtendMode::Size { .. } => "target size must be at least the image size"@,
            ExtendMode::AspectRatio { .. } => "aspect ratio values must be non-zero"@,
        },
    }
}

/// Pixels of a `cw` x `ch` canvas holding the `w` x `h` RGBA image `d`
/// with its top-left corner at `(ox, oy)`, every other pixel `fill`.
pub open spec fn canvas_pixels(d: Seq<u8>, w: int, h: int, cw: int, ch: int, ox: int, oy: int, fill: Seq<u8>) -> Seq<u8> {
    Seq::new(
        (cw * ch * 4) as nat,
        |j: int|
            {
                let r = j / (cw * 4);
                let c = (j % (cw * 4)) / 4;
                let k = (j % (cw * 4)) % 4;
                if oy <= r < oy + h && ox <= c < ox + w {
                    d[((r - oy) * w + (c - ox)) * 4 + k]
                } else {
                    fill[k]
                }
            },
    )
}

/// Byte `b` of row `r` sits at `r * row + b` of the canvas.
proof fn lemma_row_position(r: int, b: int, row: int)
    requires
        0 <= r,
        0 <= b < row,
    ensures
        (r * row + b) / row == r,
        (r * row + b) % row == b,
{
    vstd::arithmetic::div_mod::lemma_fundamental_div_mod_converse(r * row + b, row, r, b);
}

/// Paint the image onto a `cw` x `ch` canvas at `(ox, oy)`.
fn paint_canvas(image: &ImageData, cw: u32, ch: u32, ox: u32, oy: u32, fill: [u8; 4]) -> (r: Vec<u8>)
    requires
        image.well_formed(),
        ox + image.width <= cw,
        oy + image.height <= ch,
        cw * ch * 4 <= usize::MAX,
    ensures
        r@ == canvas_pixels(image.data@, image.width as int, image.height as int, cw as int, ch as int, ox as int, oy as int, fill@),
{
    let ghost d = image.data@;
    let ghost wi = image.width as int;
    let ghost hi = image.height as int;
    let ghost rowi = cw * 4;
    let w = image.width as usize;
    let h = image.height as usize;
    let len = image.data.len();
    if ch == 0 {
        proof {
            assert(cw * ch * 4 == 0);
            assert(Seq::<u8>::empty() =~= canvas_pixels(d, wi, hi, cw as int, ch as int, ox as int, oy as int, fill@));
        }
        return Vec::new();
    }
    proof {
        assert((ch as int) * rowi <= usize::MAX) by (nonlinear_arith)
            requires
                cw * ch * 4 <= usize::MAX,
                rowi == cw * 4,
        ;
        assert(rowi <= usize::MAX) by (nonlinear_arith)
            requires
                (ch as int) * rowi <= usize::MAX,
                rowi >= 0,
                ch >= 1,
        ;
    }
    let row_bytes = (cw as usize) * 4;
    let mut out: Vec<u8> = Vec::new();
    let mut r: usize = 0;
    while r < ch as usize
        invariant
            d == image.data@,
            d.len() == wi * hi * 4,
            len == d.len(),
            wi == image.width,
            hi == image.height,
            w == wi,
            h == hi,
            row_bytes == rowi,
            rowi == cw * 4,
            ox + wi <= cw,
            oy + hi <= ch,
            r <= ch,
            out@.len() == r * rowi,
            forall|j: int|
                0 <= j < out@.len() ==> #[trigger] out@[j] == canvas_pixels(d, wi, hi, cw as int, ch as int, ox as int, oy as int, fill@)[j],
        decreases ch - r,
    {
        let inside_row = oy as usize <= r && r < oy as usize + h;
        let mut b: usize = 0;
        while b < row_bytes
            invariant
                d == image.data@,
                d.len() == wi * hi * 4,
                len == d.len(),
                wi == image.width,
                hi == image.height,
                w == wi,
                h == hi,
                row_bytes == rowi,
                rowi == cw * 4,
                ox + wi <= cw,
                oy + hi <= ch,
                r < ch,
                inside_row == (oy <= r < oy + hi),
                b <= rowi,
                out@.len() == r * rowi + b,
                forall|j: int|
                    0 <= j < out@.len() ==> #[trigger] out@[j] == canvas_pixels(d, wi, hi, cw as int, ch as int, ox as int, oy as int, fill@)[j],
            decreases rowi - b,
        {
            let c = b / 4;
            let k = b % 4;
            let ghost j = r * rowi + b;
            proof {
                lemma_row_position(r as int, b as int, rowi);
                assert(j < cw * ch * 4) by (nonlinear_arith)
                    requires
                        j == r * rowi + b,
                        b < rowi,
                        r + 1 <= ch,
                        rowi == cw * 4,
                ;
            }
            let byte = if inside_row && ox as usize <= c && c < ox as usize + w {
                proof {
                    assert(((r - oy) * wi + (c - ox)) * 4 + k < wi * hi * 4 && 0 <= (r - oy) * wi) by (nonlinear_arith)
                        requires
                            0 <= r - oy < hi,
                            0 <= c - ox < wi,
                            0 <= k < 4,
                    ;
                }
                image.data[((r - oy as usize) * w + (c - ox as usize)) * 4 + k]
            } else {
                fill[k]
            };
            out.push(byte);
            proof {
                assert(out@[j] == canvas_pixels(d, wi, hi, cw as int, ch as int, ox as int, oy as int, fill@)[j]);
            }
            b = b + 1;
        }
        proof {
            assert(out@.len() == (r + 1) * rowi) by (nonlinear_arith)
                requires
                    out@.len() == r * rowi + rowi,
            ;
        }
        r = r + 1;
    }
    proof {
        assert(out@.len() == cw * ch * 4) by (nonlinear_arith)
            requires
                out@.len() == ch * rowi,
                rowi == cw * 4,
        ;
        assert(out@ =~= canvas_pixels(d, wi, hi, cw as int, ch as int, ox as int, oy as int, fill@));
    }
    out
}

/// Size of the smallest canvas with ratio `aw:ah` holding a `w` x `h`
/// image, as 64-bit sides.
pub fn cover_aspect(w: u32, h: u32, aw: u32, ah: u32) -> (r: (u64, u64))
    requires
        aw >= 1,
        ah >= 1,
    ensures
        (r.0 as int, r.1 as int) == aspect_cover(w as int, h as int, aw as int, ah as int),
{
    proof {
        assert((w as int) * ah + aw <= u64::MAX && (h as int) * aw + ah <= u64::MAX) by (nonlinear_arith)
            requires
                w <= u32::MAX,
                h <= u32::MAX,
                aw <= u32::MAX,
                ah <= u32::MAX,
        ;
    }
    if (w as u64) * (ah as u64) > (h as u64) * (aw as u64) {
        (w as u64, ((w as u64) * (ah as u64) + (aw as u64) - 1) / (aw as u64))
    } else {
        (((h as u64) * (aw as u64) + (ah as u64) - 1) / (ah as u64), h as u64)
    }
}

/// Extend an image onto a larger canvas, centered, filling the new area.
pub fn extend(image: &ImageData, mode: &ExtendMode, fill: &FillColor) -> (r: Result<ImageData>)
    requires
        image.well_formed(),
    ensures
        match canvas_size(image.width as int, image.height as int, *mode) {
            Some((cw, ch)) => r matches Ok(out) && out.well_formed() && out.width == cw && out.height == ch && out.data@
                == canvas_pixels(
                image.data@,
                image.width as int,
                image.height as int,
                cw,
                ch,
                (cw - image.width) / 2,
                (ch - image.height) / 2,
                fill_rgba(*fill),
            ),
            None => r matches Err(Error::Extend(m)) && m@ == extend_error(image.width as int, image.height as int, *mode),
        },
{
    let w = image.width;
    let h = image.height;
    let (cw, ch): (u64, u64) = match *mode {
        ExtendMode::Size { width, height } => {
            if width < w || height < h {
                return Err(Error::Extend(String::from_str("target size must be at least the image size")));
            }
            (width as u64, height as u64)
        },
        ExtendMode::AspectRatio { width: aw, height: ah } => {
            if aw == 0 || ah == 0 {
                return Err(Error::Extend(String::from_str("aspect ratio values must be non-zero")));
            }
            cover_aspect(w, h, aw, ah)
        },
    };
    if cw > u32::MAX as u64 || ch > u32::MAX as u64 {
        return Err(Error::Extend(String::from_str("extended image is too large")));
    }
    proof {
        assert((cw as int) * (ch as int) * 4 <= u128::MAX) by (nonlinear_arith)
            requires
                cw <= u32::MAX,
                ch <= u32::MAX,
        ;
    }
    if (cw as u128) * (ch as u128) * 4 > usize::MAX as u128 {
        return Err(Error::Extend(String::from_str("extended image is too large")));
    }
    let cw = cw as u32;
    let ch = ch as u32;
    proof {
        match *mode {
            ExtendMode::AspectRatio { width: aw, height: ah } => {
                assert(w <= cw && h <= ch) by (nonlinear_arith)
                    requires
                        (cw as int, ch as int) == aspect_cover(w as int, h as int, aw as int, ah as int),
                        aw >= 1,
                        ah >= 1,
                ;
            },
            ExtendMode::Size { .. } => {},
        }
    }
    let ox = (cw - w) / 2;
    let oy = (ch - h) / 2;
    let color: [u8; 4] = match *fill {
        FillColor::Solid(c) => c,
        FillColor::Transparent => [0u8, 0, 0, 0],
    };
    let data = paint_canvas(image, cw, ch, ox, oy, color);
    proof {
        assert(color@ == fill_rgba(*fill));
        assert(data@.len() == cw * ch * 4);
    }
    Ok(ImageData::new(cw, ch, data))
}

/// The image sits unchanged on the canvas with its top-left corner at
/// `(ox, oy)`: pixel `(c, r)` of the image is pixel `(ox + c, oy + r)` of
/// the canvas.
pub proof fn extend_keeps_image(
    d: Seq<u8>,
    w: int,
    h: int,
    cw: int,
    ch: int,
    ox: int,
    oy: int,
    fill: Seq<u8>,
    r: int,
    c: int,
    k: int,
)
    requires
        0 <= ox,
        0 <= oy,
        ox + w <= cw,
        oy + h <= ch,
        0 <= r < h,
        0 <= c < w,
        0 <= k < 4,
    ensures
        0 <= ((oy + r) * cw + ox + c) * 4 + k < cw * ch * 4,
        canvas_pixels(d, w, h, cw, ch, ox, oy, fill)[((oy + r) * cw + ox + c) * 4 + k] == d[(r * w + c) * 4 + k],
{
    let j = ((oy + r) * cw + ox + c) * 4 + k;
    let b = (ox + c) * 4 + k;
    assert(j == (oy + r) * (cw * 4) + b) by (nonlinear_arith)
        requires
            j == ((oy + r) * cw + ox + c) * 4 + k,
            b == (ox + c) * 4 + k,
    ;
    assert(0 <= j < cw * ch * 4) by (nonlinear_arith)
        requires
            j == (oy + r) * (cw * 4) + b,
            0 <= b < cw * 4,
            0 <= oy + r < ch,
    ;
    lemma_row_position(oy + r, b, cw * 4);
    vstd::arithmetic::div_mod::lemma_fundamental_div_mod_converse(b, 4, ox + c, k);
}

/// Every canvas pixel outside the image has the fill color.
pub proof fn extend_fills_the_rest(
    d: Seq<u8>,
    w: int,
    h: int,
    cw: int,
    ch: int,
    ox: int,
    oy: int,
    fill: Seq<u8>,
    r: int,
    c: int,
    k: int,
)
    requires
        0 <= r < ch,
        0 <= c < cw,
        0 <= k < 4,
        !(oy <= r < oy + h && ox <= c < ox + w),
    ensures
        0 <= (r * cw + c) * 4 + k < cw * ch * 4,
        canvas_pixels(d, w, h, cw, ch, ox, oy, fill)[(r * cw + c) * 4 + k] == fill[k],
{
    let j = (r * cw + c) * 4 + k;
    let b = c * 4 + k;
    assert(j == r * (cw * 4) + b) by (nonlinear_arith)
        requires
            j == (r * cw + c) * 4 + k,
            b == c * 4 + k,
    ;
    assert(0 <= j < cw * ch * 4) by (nonlinear_arith)
        requires
            j == r * (cw * 4) + b,
            0 <= b < cw * 4,
            0 <= r < ch,
    ;
    lemma_row_position(r, b, cw * 4);
    vstd::arithmetic::div_mod::lemma_fundamental_div_mod_converse(b, 4, c, k);
}

/// The added area has exactly the requested color: with a solid fill
/// every canvas byte outside the image is the matching byte of the given
/// RGBA color, and with a transparent fill it is zero.
pub proof fn extend_fill_is_the_given_color(
    d: Seq<u8>,
    w: int,
    h: int,
    cw: int,
    ch: int,
    ox: int,
    oy: int,
    color: [u8; 4],
    r: int,
    c: int,
    k: int,
)
    requires
        0 <= r < ch,
        0 <= c < cw,
        0 <= k < 4,
        !(oy <= r < oy + h && ox <= c < ox + w),
    ensures
        canvas_pixels(d, w, h, cw, ch, ox, oy, fill_rgba(FillColor::Solid(color)))[(r * cw + c) * 4 + k] == color[k],
        canvas_pixels(d, w, h, cw, ch, ox, oy, fill_rgba(FillColor::Transparent))[(r * cw + c) * 4 + k] == 0,
{
    extend_fills_the_rest(d, w, h, cw, ch, ox, oy, fill_rgba(FillColor::Solid(color)), r, c, k);
    extend_fills_the_rest(d, w, h, cw, ch, ox, oy, fill_rgba(FillColor::Transparent), r, c, k);
    assert(fill_rgba(FillColor::Solid(color))[k] == color[k]);
}

} // verus!
