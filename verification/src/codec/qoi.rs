use vstd::prelude::*;

use super::{Codec, EncodeOptions, ImageData};
use crate::error::{Error, Result};
use crate::format::Format;

verus! {

/// QOI codec backed by rapid-qoi. Lossless format — quality is ignored.
pub struct QoiCodec;

/// Text of the error rapid-qoi reports when encoding the pixels fails.
pub uninterp spec fn qoi_encode_error(width: u32, height: u32, rgba: Seq<u8>) -> Seq<char>;

/// Width, height, whether the pixels carry alpha, and the raw pixels
/// (RGBA, or RGB without alpha) that rapid-qoi decodes from `data`.
pub uninterp spec fn qoi_decoded(data: Seq<u8>) -> Option<(u32, u32, bool, Seq<u8>)>;

/// Bytes of the QOI image rapid-qoi encodes from RGBA pixels (sRGB with
/// linear alpha).
pub uninterp spec fn qoi_encoded(width: u32, height: u32, rgba: Seq<u8>) -> Option<Seq<u8>>;

/// Width, height and whether the pixels carry alpha, as the QOI header in
/// `data` declares them, or `None` when rapid-qoi refuses the header.
pub uninterp spec fn qoi_header(data: Seq<u8>) -> Option<(u32, u32, bool)>;

/// Text of the error rapid-qoi reports for `data`.
pub uninterp spec fn qoi_error_message(data: Seq<u8>) -> Seq<char>;

/// Read the header with `rapid_qoi::Qoi::decode_header`.
///
/// Trusted: the result is a function of the bytes; `decode_alloc` reads the
/// same header first, so when the header is refused decoding fails with the
/// same error.
#[verifier::external_body]
fn qoi_decode_header(data: &[u8]) -> (r: core::result::Result<(u32, u32, bool), String>)
    ensures
        match r {
            Ok((w, h, alpha)) => qoi_header(data@) == Some((w, h, alpha)),
            Err(m) => qoi_header(data@) is None && qoi_decoded(data@) is None && m@ == qoi_error_message(data@),
        },
{
    match rapid_qoi::Qoi::decode_header(data) {
        Ok(header) => Ok((header.width, header.height, header.colors.has_alpha())),
        Err(e) => Err(format!("{e}")),
    }
}

/// Bytes per pixel of decoded QOI pixels.
pub open spec fn qoi_channels(alpha: bool) -> int {
    if alpha {
        4
    } else {
        3
    }
}

/// Decode with `rapid_qoi::Qoi::decode_alloc`.
///
/// Trusted: the result and the error's text are functions of the bytes; the
/// decoded image has the header's dimensions and layout, and the pixel
/// buffer holds `width * height` pixels of four bytes when the header
/// declares alpha and of three bytes otherwise. rapid-qoi computes that
/// size without an overflow check, so `requires` asks that it fit.
#[verifier::external_body]
fn qoi_decode_alloc(data: &[u8]) -> (r: core::result::Result<(u32, u32, bool, Vec<u8>), String>)
    requires
        qoi_header(data@) matches Some((w, h, alpha)) && w * h * qoi_channels(alpha) <= usize::MAX,
    ensures
        match r {
            Ok((w, h, alpha, px)) => qoi_decoded(data@) == Some((w, h, alpha, px@)) && qoi_header(data@) == Some((w, h, alpha))
                && px@.len() == w * h * qoi_channels(alpha),
            Err(m) => qoi_decoded(data@) is None && m@ == qoi_error_message(data@),
        },
{
    match rapid_qoi::Qoi::decode_alloc(data) {
        Ok((header, pixels)) => Ok((header.width, header.height, header.colors.has_alpha(), pixels)),
        Err(e) => Err(format!("{e}")),
    }
}

/// Encode RGBA pixels with `rapid_qoi::Qoi::encode_alloc` (`Colors::SrgbLinA`).
///
/// Trusted: the bytes are a function of the dimensions and pixels; the
/// pixel count assertion inside rapid-qoi holds for `width * height * 4`
/// bytes. QOI is lossless: rapid-qoi decodes the bytes it wrote back to the
/// same dimensions and RGBA pixels, with an alpha channel.
#[verifier::external_body]
fn qoi_encode_alloc(width: u32, height: u32, rgba: &[u8]) -> (r: core::result::Result<Vec<u8>, String>)
    requires
        rgba@.len() == width * height * 4,
    ensures
        match r {
            Ok(bytes) => qoi_encoded(width, height, rgba@) == Some(bytes@) && qoi_decoded(bytes@) == Some(
                (width, height, true, rgba@),
            ) && qoi_header(bytes@) == Some((width, height, true)),
            Err(m) => qoi_encoded(width, height, rgba@) is None && m@ == qoi_encode_error(width, height, rgba@),
        },
{
    let qoi = rapid_qoi::Qoi { width, height, colors: rapid_qoi::Colors::SrgbLinA };
    qoi.encode_alloc(rgba).map_err(|e| format!("{e}"))
}

/// RGBA bytes of the whole pixels of an RGB buffer, with opaque alpha.
pub open spec fn rgba_from_rgb(rgb: Seq<u8>) -> Seq<u8>
    decreases rgb.len(),
{
    if rgb.len() < 3 {
        seq![]
    } else {
        seq![rgb[0], rgb[1], rgb[2], 255u8] + rgba_from_rgb(rgb.subrange(3, rgb.len() as int))
    }
}

proof fn lemma_rgba_from_rgb_len(rgb: Seq<u8>)
    ensures
        rgba_from_rgb(rgb).len() == 4 * (rgb.len() / 3),
    decreases rgb.len(),
{
    if rgb.len() >= 3 {
        lemma_rgba_from_rgb_len(rgb.subrange(3, rgb.len() as int));
    }
}

proof fn lemma_rgba_from_rgb_index(rgb: Seq<u8>, q: int, c: int)
    requires
        0 <= q < rgb.len() / 3,
        0 <= c < 4,
    ensures
        rgba_from_rgb(rgb)[4 * q + c] == (if c < 3 {
            rgb[3 * q + c]
        } else {
            255u8
        }),
    decreases q,
{
    lemma_rgba_from_rgb_len(rgb);
    let rest = rgb.subrange(3, rgb.len() as int);
    lemma_rgba_from_rgb_len(rest);
    if q > 0 {
        lemma_rgba_from_rgb_index(rest, q - 1, c);
    }
}

/// Add an opaque alpha byte to every whole RGB pixel.
fn expand_rgb_to_rgba(rgb: &Vec<u8>) -> (r: Vec<u8>)
    ensures
        r@ == rgba_from_rgb(rgb@),
{
    let len = rgb.len();
    let n = len / 3;
    let mut out: Vec<u8> = Vec::new();
    let mut p: usize = 0;
    while p < n
        invariant
            len == rgb@.len(),
            n == len / 3,
            p <= n,
            out@.len() == 4 * p,
            forall|q: int, c: int|
                0 <= q < p && 0 <= c < 4 ==> #[trigger] out@[4 * q + c] == (if c < 3 {
                    rgb@[3 * q + c]
                } else {
                    255u8
                }),
        decreases n - p,
    {
        assert(3 * p + 2 < len);
        let base = 3 * p;
        out.push(rgb[base]);
        out.push(rgb[base + 1]);
        out.push(rgb[base + 2]);
        out.push(255);
        proof {
            assert forall|q: int, c: int| 0 <= q < p + 1 && 0 <= c < 4 implies #[trigger] out@[4 * q + c] == (if c < 3 {
                rgb@[3 * q + c]
            } else {
                255u8
            }) by {
                if q == p {
                    assert(4 * q + c == 4 * p + c);
                }
            }
        }
        p = p + 1;
    }
    proof {
        lemma_rgba_from_rgb_len(rgb@);
        assert forall|i: int| 0 <= i < out@.len() implies out@[i] == rgba_from_rgb(rgb@)[i] by {
            let q = i / 4;
            let c = i % 4;
            assert(i == 4 * q + c);
            lemma_rgba_from_rgb_index(rgb@, q, c);
        }
        assert(out@ =~= rgba_from_rgb(rgb@));
    }
    out
}

/// Whether the header declares more pixel bytes than memory can address.
pub open spec fn qoi_size_overflows(data: Seq<u8>) -> bool {
    qoi_header(data) matches Some((w, h, alpha)) && w * h * qoi_channels(alpha) > usize::MAX
}

/// What the QOI codec decodes: RGB images get opaque alpha; a header whose
/// pixel buffer would not fit in memory is refused.
pub open spec fn qoi_decoded_rgba(data: Seq<u8>) -> Option<(u32, u32, Seq<u8>)> {
    if qoi_size_overflows(data) {
        None
    } else {
        match qoi_decoded(data) {
        Some((w, h, alpha, px)) => Some((w, h, if alpha {
            px
        } else {
            rgba_from_rgb(px)
        })),
        None => None,
        }
    }
}

/// Text of the QOI codec's decode errors.
pub open spec fn qoi_decode_error(data: Seq<u8>) -> Seq<char> {
    if qoi_size_overflows(data) {
        "qoi decode: image size overflows memory"@
    } else {
        "qoi decode: "@ + qoi_error_message(data)
    }
}

impl Codec for QoiCodec {
    open spec fn spec_format(&self) -> Format {
        Format::Qoi
    }

    open spec fn decoded(&self, data: Seq<u8>) -> Option<(u32, u32, Seq<u8>)> {
        qoi_decoded_rgba(data)
    }

    open spec fn decode_error(&self, data: Seq<u8>) -> Seq<char> {
        qoi_decode_error(data)
    }

    /// The bytes rapid-qoi writes, which decode back to the same pixels.
    open spec fn encode_outcome(&self, width: u32, height: u32, rgba: Seq<u8>, options: EncodeOptions, out: Option<Seq<u8>>) -> bool {
        &&& out == qoi_encoded(width, height, rgba)
        &&& out matches Some(bytes) ==> {
            &&& qoi_decoded(bytes) == Some((width, height, true, rgba))
            &&& qoi_header(bytes) == Some((width, height, true))
            &&& width * height * 4 <= usize::MAX
        }
    }

    open spec fn encode_error_ok(&self, width: u32, height: u32, rgba: Seq<u8>, options: EncodeOptions, message: Seq<char>) -> bool {
        message == "qoi encode: "@ + qoi_encode_error(width, height, rgba)
    }

    open spec fn encode_admits(&self, width: u32, height: u32, rgba: Seq<u8>, options: EncodeOptions) -> bool {
        true
    }

    fn format(&self) -> (f: Format) {
        Format::Qoi
    }

    fn decode(&self, data: &[u8]) -> (r: Result<ImageData>) {
        let (width, height, alpha) = match qoi_decode_header(data) {
            Ok(header) => header,
            Err(message) => {
                return Err(Error::Decode(String::from_str("qoi decode: ").concat(message.as_str())));
            },
        };
        let channels: u64 = if alpha { 4 } else { 3 };
        assert((width as int) * (height as int) <= u64::MAX) by (nonlinear_arith)
            requires
                width <= u32::MAX,
                height <= u32::MAX,
        ;
        let pixels: u64 = (width as u64) * (height as u64);
        let fits = match pixels.checked_mul(channels) {
            Some(size) => size <= usize::MAX as u64,
            None => false,
        };
        if !fits {
            return Err(Error::Decode(String::from_str("qoi decode: image size overflows memory")));
        }
        match qoi_decode_alloc(data) {
            Ok((width, height, alpha, pixels)) => {
                let rgba = if alpha {
                    pixels
                } else {
                    let expanded = expand_rgb_to_rgba(&pixels);
                    proof {
                        lemma_rgba_from_rgb_len(pixels@);
                        assert(pixels@.len() / 3 == width * height);
                    }
                    expanded
                };
                Ok(ImageData::new(width, height, rgba))
            },
            Err(message) => Err(Error::Decode(String::from_str("qoi decode: ").concat(message.as_str()))),
        }
    }

    fn encode(&self, image: &ImageData, _options: &EncodeOptions) -> (r: Result<Vec<u8>>) {
        proof {
            assert(image.data@.len() == image.data.len());
        }
        match qoi_encode_alloc(image.width, image.height, image.data.as_slice()) {
            Ok(bytes) => Ok(bytes),
            Err(message) => Err(Error::Encode(String::from_str("qoi encode: ").concat(message.as_str()))),
        }
    }
}

/// QOI is lossless: whatever the QOI codec encodes, it decodes back to the
/// same dimensions and RGBA pixels.
pub proof fn qoi_roundtrip(width: u32, height: u32, rgba: Seq<u8>, options: EncodeOptions, bytes: Seq<u8>)
    requires
        QoiCodec.encode_outcome(width, height, rgba, options, Some(bytes)),
    ensures
        QoiCodec.decoded(bytes) == Some((width, height, rgba)),
{
}

} // verus!
