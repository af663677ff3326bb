use vstd::prelude::*;

use super::{decode_via_image_crate, image_crate_decoded, image_crate_error, rgb_of, Codec, EncodeOptions, ImageData};
use crate::error::{Error, Result};
use crate::format::Format;

verus! {

/// JPEG codec: MozJPEG encodes; decoding goes through the `image` crate's
/// JPEG decoder, which reports corrupt input as an error.
pub struct JpegCodec;

/// Largest width or height libjpeg accepts (`JPEG_MAX_DIMENSION`).
pub const JPEG_MAX_DIMENSION: u32 = 65500;

/// Bytes MozJPEG writes for RGB pixels (`ColorSpace::JCS_RGB`) with the
/// given quality and settings, or `None` when it reports an error.
pub uninterp spec fn mozjpeg_encoded(
    width: u32,
    height: u32,
    rgb: Seq<u8>,
    quality: u8,
    progressive: bool,
    optimize_scans: bool,
    optimize_coding: bool,
) -> Option<Seq<u8>>;

/// Text of the error MozJPEG reports when the compression fails (with the
/// stage it failed in).
pub uninterp spec fn mozjpeg_error(
    width: u32,
    height: u32,
    rgb: Seq<u8>,
    quality: u8,
    progressive: bool,
    optimize_scans: bool,
    optimize_coding: bool,
) -> Seq<char>;

/// Compress RGB pixels with `mozjpeg::Compress` in sequential mode:
/// `new(JCS_RGB)`, `set_size`, `set_quality`, `set_optimize_scans`,
/// `set_optimize_coding`, `start_compress`, `write_scanlines`, `finish`.
///
/// Trusted: the bytes are a function of the arguments. libjpeg raises (and
/// MozJPEG unwinds) on an empty image or a side above
/// `JPEG_MAX_DIMENSION`, which `requires` excludes together with a
/// buffer of other than `width * height` RGB pixels.
#[verifier::external_body]
fn mozjpeg_compress_sequential(
    rgb: &[u8],
    width: u32,
    height: u32,
    quality: u8,
    optimize_scans: bool,
    optimize_coding: bool,
) -> (r: core::result::Result<Vec<u8>, String>)
    requires
        rgb@.len() == width * height * 3,
        1 <= width <= JPEG_MAX_DIMENSION,
        1 <= height <= JPEG_MAX_DIMENSION,
    ensures
        match r {
            Ok(bytes) => mozjpeg_encoded(width, height, rgb@, quality, false, optimize_scans, optimize_coding) == Some(bytes@),
            Err(m) => mozjpeg_encoded(width, height, rgb@, quality, false, optimize_scans, optimize_coding) is None && m@
                == mozjpeg_error(width, height, rgb@, quality, false, optimize_scans, optimize_coding),
        },
{
    let mut compress = mozjpeg::Compress::new(mozjpeg::ColorSpace::JCS_RGB);
    compress.set_size(width as usize, height as usize);
    compress.set_quality(quality.into());
    compress.set_optimize_scans(optimize_scans);
    compress.set_optimize_coding(optimize_coding);
    let mut started = compress.start_compress(Vec::new()).map_err(|e| format!("mozjpeg compress start: {e}"))?;
    started.write_scanlines(rgb).map_err(|e| format!("mozjpeg write scanlines: {e}"))?;
    started.finish().map_err(|e| format!("mozjpeg finish: {e}"))
}

/// The same as `mozjpeg_compress_sequential`, with
/// `Compress::set_progressive_mode` called after `set_quality`.
///
/// Trusted on the same terms.
#[verifier::external_body]
fn mozjpeg_compress_progressive(
    rgb: &[u8],
    width: u32,
    height: u32,
    quality: u8,
    optimize_scans: bool,
    optimize_coding: bool,
) -> (r: core::result::Result<Vec<u8>, String>)
    requires
        rgb@.len() == width * height * 3,
        1 <= width <= JPEG_MAX_DIMENSION,
        1 <= height <= JPEG_MAX_DIMENSION,
    ensures
        match r {
            Ok(bytes) => mozjpeg_encoded(width, height, rgb@, quality, true, optimize_scans, optimize_coding) == Some(bytes@),
            Err(m) => mozjpeg_encoded(width, height, rgb@, quality, true, optimize_scans, optimize_coding) is None && m@
                == mozjpeg_error(width, height, rgb@, quality, true, optimize_scans, optimize_coding),
        },
{
    let mut compress = mozjpeg::Compress::new(mozjpeg::ColorSpace::JCS_RGB);
    compress.set_size(width as usize, height as usize);
    compress.set_quality(quality.into());
    compress.set_progressive_mode();
    compress.set_optimize_scans(optimize_scans);
    compress.set_optimize_coding(optimize_coding);
    let mut started = compress.start_compress(Vec::new()).map_err(|e| format!("mozjpeg compress start: {e}"))?;
    started.write_scanlines(rgb).map_err(|e| format!("mozjpeg write scanlines: {e}"))?;
    started.finish().map_err(|e| format!("mozjpeg finish: {e}"))
}

/// MozJPEG settings chosen from an effort value.
pub struct JpegSettings {
    /// Progressive scans.
    pub progressive: bool,
    /// MozJPEG's scan optimisation.
    pub optimize_scans: bool,
    /// Optimised Huffman tables.
    pub optimize_coding: bool,
}

/// Progressive mode and optimised coding from effort 25 on, scan
/// optimisation from effort 50 on; everything on when no effort is given.
pub open spec fn spec_jpeg_settings(effort: Option<u8>) -> (bool, bool, bool) {
    match effort {
        None => (true, true, true),
        Some(e) => (e >= 25, e >= 50, e >= 25),
    }
}

/// Choose the MozJPEG settings for an effort value.
pub fn jpeg_settings(effort: Option<u8>) -> (r: JpegSettings)
    ensures
        (r.progressive, r.optimize_scans, r.optimize_coding) == spec_jpeg_settings(effort),
{
    match effort {
        None => JpegSettings { progressive: true, optimize_scans: true, optimize_coding: true },
        Some(e) => JpegSettings { progressive: e >= 25, optimize_scans: e >= 50, optimize_coding: e >= 25 },
    }
}

/// More effort never turns a MozJPEG optimisation off.
pub proof fn jpeg_settings_monotone(a: u8, b: u8)
    requires
        a <= b,
    ensures
        spec_jpeg_settings(Some(a)).0 ==> spec_jpeg_settings(Some(b)).0,
        spec_jpeg_settings(Some(a)).1 ==> spec_jpeg_settings(Some(b)).1,
        spec_jpeg_settings(Some(a)).2 ==> spec_jpeg_settings(Some(b)).2,
{
}

/// Text of the JPEG encoder's errors: libjpeg's refusal of an empty or
/// oversized image, or MozJPEG's error.
pub open spec fn jpeg_encode_error(width: u32, height: u32, rgba: Seq<u8>, options: EncodeOptions) -> Seq<char> {
    if width == 0 || height == 0 {
        "mozjpeg panicked: libjpeg fatal error: Empty JPEG image (DNL not supported)"@
    } else if width > JPEG_MAX_DIMENSION || height > JPEG_MAX_DIMENSION {
        "mozjpeg panicked: libjpeg fatal error: Maximum supported image dimension is 65500 pixels"@
    } else {
        let (progressive, optimize_scans, optimize_coding) = spec_jpeg_settings(options.effort);
        mozjpeg_error(width, height, rgb_of(rgba), options.quality, progressive, optimize_scans, optimize_coding)
    }
}

/// What the JPEG encoder produces: libjpeg refuses an empty image and sides
/// above `JPEG_MAX_DIMENSION`; otherwise MozJPEG encodes the RGB pixels.
pub open spec fn jpeg_encode_result(width: u32, height: u32, rgba: Seq<u8>, options: EncodeOptions) -> Option<Seq<u8>> {
    if width == 0 || height == 0 || width > JPEG_MAX_DIMENSION || height > JPEG_MAX_DIMENSION {
        None
    } else {
        let (progressive, optimize_scans, optimize_coding) = spec_jpeg_settings(options.effort);
        mozjpeg_encoded(width, height, rgb_of(rgba), options.quality, progressive, optimize_scans, optimize_coding)
    }
}

impl Codec for JpegCodec {
    open spec fn spec_format(&self) -> Format {
        Format::Jpeg
    }

    open spec fn decoded(&self, data: Seq<u8>) -> Option<(u32, u32, Seq<u8>)> {
        image_crate_decoded(data, Format::Jpeg)
    }

    open spec fn decode_error(&self, data: Seq<u8>) -> Seq<char> {
        "jpeg"@ + " decode: "@ + image_crate_error(data, Format::Jpeg)
    }

    open spec fn encode_outcome(&self, width: u32, height: u32, rgba: Seq<u8>, options: EncodeOptions, out: Option<Seq<u8>>) -> bool {
        out == jpeg_encode_result(width, height, rgba, options)
    }

    open spec fn encode_error_ok(&self, width: u32, height: u32, rgba: Seq<u8>, options: EncodeOptions, message: Seq<char>) -> bool {
        message == jpeg_encode_error(width, height, rgba, options)
    }

    open spec fn encode_admits(&self, width: u32, height: u32, rgba: Seq<u8>, options: EncodeOptions) -> bool {
        true
    }

    fn format(&self) -> (f: Format) {
        Format::Jpeg
    }

    fn decode(&self, data: &[u8]) -> (r: Result<ImageData>) {
        decode_via_image_crate(data, Format::Jpeg, "jpeg")
    }

    fn encode(&self, image: &ImageData, options: &EncodeOptions) -> (r: Result<Vec<u8>>) {
        let width = image.width;
        let height = image.height;
        if width == 0 || height == 0 {
            return Err(Error::Encode(String::from_str("mozjpeg panicked: libjpeg fatal error: Empty JPEG image (DNL not supported)")));
        }
        if width > JPEG_MAX_DIMENSION || height > JPEG_MAX_DIMENSION {
            return Err(Error::Encode(String::from_str("mozjpeg panicked: libjpeg fatal error: Maximum supported image dimension is 65500 pixels")));
        }
        let rgb = image.to_rgb();
        proof {
            super::lemma_rgb_of_len(image.data@);
            assert(image.data@.len() / 4 == width * height) by (nonlinear_arith)
                requires
                    image.data@.len() == width * height * 4,
            ;
        }
        let settings = jpeg_settings(options.effort);
        let result = if settings.progressive {
            mozjpeg_compress_progressive(rgb.as_slice(), width, height, options.quality, settings.optimize_scans, settings.optimize_coding)
        } else {
            mozjpeg_compress_sequential(rgb.as_slice(), width, height, options.quality, settings.optimize_scans, settings.optimize_coding)
        };
        match result {
            Ok(bytes) => Ok(bytes),
            Err(message) => Err(Error::Encode(message)),
        }
    }
}

} // verus!
