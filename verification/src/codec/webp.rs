use vstd::prelude::*;

use super::avif::clamped_effort;
use super::{decode_via_image_crate, image_crate_decoded, image_crate_error, Codec, EncodeOptions, ImageData};
use crate::error::{Error, Result};
use crate::format::Format;

verus! {

/// WebP codec backed by libwebp.
pub struct WebPCodec;

/// Largest width or height libwebp encodes (`WEBP_MAX_DIMENSION`).
pub const WEBP_MAX_DIMENSION: u32 = 16383;

/// Bytes libwebp's simple lossy encoder (`webp::Encoder::encode`) writes for
/// RGBA pixels at a quality.
pub uninterp spec fn webp_encoded(width: u32, height: u32, rgba: Seq<u8>, quality: u8) -> Seq<u8>;

/// Bytes libwebp writes through `webp::Encoder::encode_advanced` for RGBA
/// pixels, with libwebp's default configuration except for the quality and
/// the compression method; `None` when libwebp reports an error.
pub uninterp spec fn webp_encoded_with_method(width: u32, height: u32, rgba: Seq<u8>, quality: u8, method: i32) -> Option<Seq<u8>>;

/// Text (the `Debug` form of libwebp's error) of a failed advanced encode.
pub uninterp spec fn webp_encode_error(width: u32, height: u32, rgba: Seq<u8>, quality: u8, method: i32) -> Seq<char>;

/// Why an advanced libwebp encode failed.
pub enum WebpFailure {
    /// `WebPConfig::new` could not initialise a configuration.
    ConfigInit(String),
    /// libwebp rejected the configuration or the picture.
    Encode(String),
}

/// Lossy encode with `webp::Encoder::from_rgba(..).encode(quality)`.
///
/// Trusted: the bytes are a function of the arguments. `encode` unwraps
/// libwebp's result, so it panics when libwebp fails; libwebp fails for a
/// quality above 100 or a side of 0 or above `WEBP_MAX_DIMENSION`, which
/// `requires` excludes. The buffer length check of `from_rgba` holds too.
#[verifier::external_body]
fn webp_encode_lossy(rgba: &[u8], width: u32, height: u32, quality: u8) -> (r: Vec<u8>)
    requires
        rgba@.len() == width * height * 4,
        1 <= width <= WEBP_MAX_DIMENSION,
        1 <= height <= WEBP_MAX_DIMENSION,
        quality <= 100,
    ensures
        r@ == webp_encoded(width, height, rgba@, quality),
{
    webp::Encoder::from_rgba(rgba, width, height).encode(quality.into()).to_vec()
}

/// Encode with a fresh `webp::WebPConfig::new()` whose `quality` and
/// `method` are set, through `webp::Encoder::encode_advanced`.
///
/// Trusted: the outcome of the encode is a function of the arguments;
/// libwebp reports (rather than raises) invalid settings and a zero side.
/// The picture import computes `width * 4` as an `i32`, so `requires` keeps
/// both sides within `WEBP_MAX_DIMENSION`. Nothing is stated of when
/// `WebPConfig::new` fails (a libwebp version mismatch).
#[verifier::external_body]
fn webp_encode_advanced(rgba: &[u8], width: u32, height: u32, quality: u8, method: i32) -> (r: core::result::Result<Vec<u8>, WebpFailure>)
    requires
        rgba@.len() == width * height * 4,
        width <= WEBP_MAX_DIMENSION,
        height <= WEBP_MAX_DIMENSION,
    ensures
        match r {
            Ok(bytes) => webp_encoded_with_method(width, height, rgba@, quality, method) == Some(bytes@),
            Err(WebpFailure::Encode(m)) => webp_encoded_with_method(width, height, rgba@, quality, method) is None && m@
                == webp_encode_error(width, height, rgba@, quality, method),
            Err(WebpFailure::ConfigInit(_)) => true,
        },
{
    let mut config = webp::WebPConfig::new().map_err(|e| WebpFailure::ConfigInit(format!("{e:?}")))?;
    config.quality = quality.into();
    config.method = method;
    let encoded = webp::Encoder::from_rgba(rgba, width, height).encode_advanced(&config);
    encoded.map(|memory| memory.to_vec()).map_err(|e| WebpFailure::Encode(format!("{e:?}")))
}

/// A side beyond `WEBP_MAX_DIMENSION`.
pub open spec fn webp_oversized(width: u32, height: u32) -> bool {
    width > WEBP_MAX_DIMENSION || height > WEBP_MAX_DIMENSION
}

/// libwebp's error for an oversized picture: it validates the
/// configuration (a quality above 100 is invalid) before the dimensions.
pub open spec fn webp_oversized_error(quality: u8) -> Seq<char> {
    if quality > 100 {
        "webp encode: VP8_ENC_ERROR_INVALID_CONFIGURATION"@
    } else {
        "webp encode: VP8_ENC_ERROR_BAD_DIMENSION"@
    }
}

/// Whether libwebp's simple encoder accepts the request: both sides in
/// `1..=WEBP_MAX_DIMENSION` and a quality of at most 100.
pub open spec fn webp_simple_encode_admits(width: u32, height: u32, quality: u8) -> bool {
    1 <= width <= WEBP_MAX_DIMENSION && 1 <= height <= WEBP_MAX_DIMENSION && quality <= 100
}

impl Codec for WebPCodec {
    open spec fn spec_format(&self) -> Format {
        Format::WebP
    }

    open spec fn decoded(&self, data: Seq<u8>) -> Option<(u32, u32, Seq<u8>)> {
        image_crate_decoded(data, Format::WebP)
    }

    open spec fn decode_error(&self, data: Seq<u8>) -> Seq<char> {
        "webp"@ + " decode: "@ + image_crate_error(data, Format::WebP)
    }

    open spec fn encode_outcome(&self, width: u32, height: u32, rgba: Seq<u8>, options: EncodeOptions, out: Option<Seq<u8>>) -> bool {
        match options.effort {
            None => out == Some(webp_encoded(width, height, rgba, options.quality)),
            Some(effort) => if webp_oversized(width, height) {
                out is None
            } else {
                let expected = webp_encoded_with_method(width, height, rgba, options.quality, spec_webp_method(effort) as i32);
                out is None || out == expected
            },
        }
    }

    /// Without an effort the simple encoder is used, which panics on
    /// requests libwebp refuses; with an effort libwebp's error is reported.
    open spec fn encode_error_ok(&self, width: u32, height: u32, rgba: Seq<u8>, options: EncodeOptions, message: Seq<char>) -> bool {
        match options.effort {
            None => false,
            Some(effort) => if webp_oversized(width, height) {
                message == webp_oversized_error(options.quality)
            } else {
                ||| message == "webp encode: "@ + webp_encode_error(width, height, rgba, options.quality, spec_webp_method(effort) as i32)
                ||| exists|detail: Seq<char>| message == "webp config init: "@ + detail
            },
        }
    }

    open spec fn encode_admits(&self, width: u32, height: u32, rgba: Seq<u8>, options: EncodeOptions) -> bool {
        options.effort is Some || webp_simple_encode_admits(width, height, options.quality)
    }

    fn format(&self) -> (f: Format) {
        Format::WebP
    }

    fn decode(&self, data: &[u8]) -> (r: Result<ImageData>) {
        decode_via_image_crate(data, Format::WebP, "webp")
    }

    fn encode(&self, image: &ImageData, options: &EncodeOptions) -> (r: Result<Vec<u8>>) {
        match options.effort {
            None => Ok(webp_encode_lossy(image.data.as_slice(), image.width, image.height, options.quality)),
            Some(effort) => {
                if image.width > WEBP_MAX_DIMENSION || image.height > WEBP_MAX_DIMENSION {
                    let message = if options.quality > 100 {
                        "webp encode: VP8_ENC_ERROR_INVALID_CONFIGURATION"
                    } else {
                        "webp encode: VP8_ENC_ERROR_BAD_DIMENSION"
                    };
                    return Err(Error::Encode(String::from_str(message)));
                }
                let method = effort_to_webp_method(effort);
                match webp_encode_advanced(image.data.as_slice(), image.width, image.height, options.quality, method) {
                    Ok(bytes) => Ok(bytes),
                    Err(WebpFailure::ConfigInit(message)) => Err(Error::Encode(String::from_str("webp config init: ").concat(message.as_str()))),
                    Err(WebpFailure::Encode(message)) => Err(Error::Encode(String::from_str("webp encode: ").concat(message.as_str()))),
                }
            },
        }
    }
}

/// libwebp compression method for an effort value: effort 0 is method 0,
/// effort 50 is method 4 (libwebp's default) and effort 100 is method 6.
pub open spec fn spec_webp_method(effort: u8) -> int {
    let e = clamped_effort(effort);
    if e <= 50 {
        (e * 4 + 25) / 50
    } else {
        4 + ((e - 50) * 2 + 25) / 50
    }
}

/// Map an effort value (0..=100) onto libwebp's method scale (0..=6).
pub fn effort_to_webp_method(effort: u8) -> (r: i32)
    ensures
        r == spec_webp_method(effort),
{
    let effort: u16 = if effort > 100 { 100 } else { effort as u16 };
    if effort <= 50 {
        ((effort * 4 + 25) / 50) as i32
    } else {
        (4 + ((effort - 50) * 2 + 25) / 50) as i32
    }
}

/// The method always lies in libwebp's range 0..=6 and grows with effort.
pub proof fn webp_method_in_range_and_monotone(a: u8, b: u8)
    ensures
        0 <= spec_webp_method(a) <= 6,
        a <= b ==> spec_webp_method(a) <= spec_webp_method(b),
        spec_webp_method(0) == 0,
        spec_webp_method(50) == 4,
        spec_webp_method(100) == 6,
{
}

} // verus!
