use vstd::prelude::*;

use crate::codec::ImageData;
use crate::error::{Error, Result};

verus! {

/// How to resize an image. (Scaling by a factor is done by the caller,
/// which turns the factor into an `Exact` size.)
#[derive(Debug, Clone, Copy, PartialEq, Eq, Structural)]
pub enum ResizeMode {
    /// This width; the height keeps the aspect ratio.
    Width(u32),
    /// This height; the width keeps the aspect ratio.
    Height(u32),
    /// The largest size within these bounds that keeps the aspect ratio.
    Fit(u32, u32),
    /// Exactly this size (the aspect ratio may change).
    Exact(u32, u32),
}

/// `a * b / c` rounded to the nearest integer (halves up), and at least 1.
pub open spec fn scaled_side(a: int, b: int, c: int) -> int {
    let v = (2 * a * b + c) / (2 * c);
    if v < 1 {
        1
    } else {
        v
    }
}

/// The size `mode` asks of a `w` x `h` image, or `None` for an empty image
/// or a zero target side.
pub open spec fn requested_size(w: int, h: int, mode: ResizeMode) -> Option<(int, int)> {
    if w == 0 || h == 0 {
        None
    } else {
        match mode {
            ResizeMode::Width(nw) => if nw == 0 {
                None
            } else {
                Some((nw as int, scaled_side(h, nw as int, w)))
            },
            ResizeMode::Height(nh) => if nh == 0 {
                None
            } else {
                Some((scaled_side(w, nh as int, h), nh as int))
            },
            ResizeMode::Fit(bw, bh) => if bw == 0 || bh == 0 {
                None
            } else if w * bh <= h * bw {
                Some((scaled_side(w, bh as int, h), bh as int))
            } else {
                Some((bw as int, scaled_side(h, bw as int, w)))
            },
            ResizeMode::Exact(nw, nh) => if nw == 0 || nh == 0 {
                None
            } else {
                Some((nw as int, nh as int))
            },
        }
    }
}

/// Size of the resized image, or `None` when there is none: an empty
/// image, a zero target side, or a size (or the resampler's intermediate
/// `w` x new-height buffer) beyond what the machine can index.
pub open spec fn resize_size(w: int, h: int, mode: ResizeMode) -> Option<(int, int)> {
    match requested_size(w, h, mode) {
        Some((nw, nh)) => if nw <= u32::MAX && nh <= u32::MAX && nw * nh * 4 <= usize::MAX && w * nh * 4 <= usize::MAX {
            Some((nw, nh))
        } else {
            None
        },
        None => None,
    }
}

/// Why `mode` gives no size for a `w` x `h` image.
pub open spec fn resize_error(w: int, h: int, mode: ResizeMode) -> Seq<char> {
    if w == 0 || h == 0 {
        "cannot resize an empty image"@
    } else if requested_size(w, h, mode) is None {
        "target size must be non-zero"@
    } else {
        "resized image is too large"@
    }
}

/// RGBA pixels that `image::imageops::resize` with the Lanczos3 filter
/// produces from a `width` x `height` RGBA image at the new size.
pub uninterp spec fn lanczos_resized(width: u32, height: u32, rgba: Seq<u8>, new_width: u32, new_height: u32) -> Seq<u8>;

/// Resample RGBA pixels with `image::imageops::resize` (Lanczos3).
///
/// Trusted: the pixels are a function of the arguments; the output holds
/// `new_width * new_height` RGBA pixels, and a resize to the image's own
/// size copies it unchanged.
#[verifier::external_body]
fn resample_rgba(width: u32, height: u32, rgba: &[u8], new_width: u32, new_height: u32) -> (r: Vec<u8>)
    requires
        rgba@.len() == width * height * 4,
        width * new_height * 4 <= usize::MAX,
        new_width * new_height * 4 <= usize::MAX,
    ensures
        r@ == lanczos_resized(width, height, rgba@, new_width, new_height),
        r@.len() == new_width * new_height * 4,
        new_width == width && new_height == height ==> r@ == rgba@,
{
    let source = image::RgbaImage::from_raw(width, height, rgba.to_vec()).unwrap();
    image::imageops::resize(&source, new_width, new_height, image::imageops::FilterType::Lanczos3).into_raw()
}

/// `a * b / c` rounded to the nearest integer (halves up), at least 1.
fn scale_side(a: u32, b: u32, c: u32) -> (r: u64)
    requires
        c >= 1,
    ensures
        r == scaled_side(a as int, b as int, c as int),
{
    proof {
        assert(2 * (a as int) * (b as int) + c <= u128::MAX) by (nonlinear_arith)
            requires
                a <= u32::MAX,
                b <= u32::MAX,
                c <= u32::MAX,
        ;
    }
    let v = (2 * (a as u128) * (b as u128) + (c as u128)) / (2 * (c as u128));
    proof {
        let n = 2 * (a as int) * (b as int) + c;
        assert(v <= n / 2) by (nonlinear_arith)
            requires
                v == n / (2 * (c as int)),
                c >= 1,
                n >= 0,
        ;
        assert(n / 2 <= u64::MAX) by (nonlinear_arith)
            requires
                n == 2 * (a as int) * (b as int) + c,
                a <= u32::MAX,
                b <= u32::MAX,
                c <= u32::MAX,
        ;
    }
    if v < 1 {
        1
    } else {
        v as u64
    }
}

/// The size `mode` asks of a `w` x `h` image (both sides positive).
fn requested(w: u32, h: u32, mode: &ResizeMode) -> (r: Option<(u64, u64)>)
    ensures
        match requested_size(w as int, h as int, *mode) {
            Some((nw, nh)) => r == Some((nw as u64, nh as u64)) && nw <= u64::MAX && nh <= u64::MAX,
            None => r is None,
        },
{
    if w == 0 || h == 0 {
        return None;
    }
    match *mode {
        ResizeMode::Width(nw) => if nw == 0 {
            None
        } else {
            Some((nw as u64, scale_side(h, nw, w)))
        },
        ResizeMode::Height(nh) => if nh == 0 {
            None
        } else {
            Some((scale_side(w, nh, h), nh as u64))
        },
        ResizeMode::Fit(bw, bh) => {
            if bw == 0 || bh == 0 {
                None
            } else {
                proof {
                    assert((w as int) * bh <= u64::MAX && (h as int) * bw <= u64::MAX) by (nonlinear_arith)
                        requires
                            w <= u32::MAX,
                            h <= u32::MAX,
                            bw <= u32::MAX,
                            bh <= u32::MAX,
                    ;
                }
                if (w as u64) * (bh as u64) <= (h as u64) * (bw as u64) {
                    Some((scale_side(w, bh, h), bh as u64))
                } else {
                    Some((bw as u64, scale_side(h, bw, w)))
                }
            }
        },
        ResizeMode::Exact(nw, nh) => if nw == 0 || nh == 0 {
            None
        } else {
            Some((nw as u64, nh as u64))
        },
    }
}

/// Resize an image.
pub fn resize(image: &ImageData, mode: &ResizeMode) -> (r: Result<ImageData>)
    requires
        image.well_formed(),
    ensures
        match resize_size(image.width as int, image.height as int, *mode) {
            Some((nw, nh)) => r matches Ok(out) && out.well_formed() && out.width == nw && out.height == nh && out.data@
                == lanczos_resized(image.width, image.height, image.data@, nw as u32, nh as u32),
            None => r matches Err(Error::Resize(m)) && m@ == resize_error(image.width as int, image.height as int, *mode),
        },
        resize_size(image.width as int, image.height as int, *mode) == Some((image.width as int, image.height as int)) ==> (r matches Ok(
            out,
        ) && out.data@ == image.data@),
{
    let w = image.width;
    let h = image.height;
    if w == 0 || h == 0 {
        return Err(Error::Resize(String::from_str("cannot resize an empty image")));
    }
    let (nw, nh) = match requested(w, h, mode) {
        Some(size) => size,
        None => return Err(Error::Resize(String::from_str("target size must be non-zero"))),
    };
    if nw > u32::MAX as u64 || nh > u32::MAX as u64 {
        return Err(Error::Resize(String::from_str("resized image is too large")));
    }
    proof {
        assert((nw as int) * (nh as int) * 4 <= u128::MAX && (w as int) * (nh as int) * 4 <= u128::MAX) by (nonlinear_arith)
            requires
                nw <= u32::MAX,
                nh <= u32::MAX,
                w <= u32::MAX,
        ;
    }
    if (nw as u128) * (nh as u128) * 4 > usize::MAX as u128 || (w as u128) * (nh as u128) * 4 > usize::MAX as u128 {
        return Err(Error::Resize(String::from_str("resized image is too large")));
    }
    let nw = nw as u32;
    let nh = nh as u32;
    let data = resample_rgba(w, h, image.data.as_slice(), nw, nh);
    Ok(ImageData::new(nw, nh, data))
}

/// `Fit` stays within its bounds.
pub proof fn fit_stays_within_bounds(w: u32, h: u32, bw: u32, bh: u32)
    ensures
        resize_size(w as int, h as int, ResizeMode::Fit(bw, bh)) matches Some((nw, nh)) ==> 1 <= nw <= bw && 1 <= nh <= bh,
{
    if w >= 1 && h >= 1 && bw >= 1 && bh >= 1 {
        if (w as int) * bh <= (h as int) * bw {
            assert((2 * (w as int) * bh + h) / (2 * (h as int)) <= bw) by (nonlinear_arith)
                requires
                    (w as int) * bh <= (h as int) * bw,
                    h >= 1,
                    bw >= 1,
            ;
        } else {
            assert((2 * (h as int) * bw + w) / (2 * (w as int)) <= bh) by (nonlinear_arith)
                requires
                    (w as int) * bh > (h as int) * bw,
                    w >= 1,
                    bh >= 1,
            ;
        }
    }
}

} // verus!
