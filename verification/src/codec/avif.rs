use vstd::prelude::*;

use rgb::FromSlice;
use zenpixels_convert::PixelBufferConvertExt;

use super::{Codec, EncodeOptions, ImageData};
use crate::error::{Error, Result};
use crate::format::Format;

verus! {

/// AVIF codec backed by zenavif for decoding and ravif for encoding.
pub struct AvifCodec;

/// Width, height and RGBA8 pixels zenavif decodes from `data` (preferring
/// 8-bit output), or `None` when it reports an error.
pub uninterp spec fn avif_decoded(data: Seq<u8>) -> Option<(u32, u32, Seq<u8>)>;

/// Text of the error ravif reports when the encode fails.
pub uninterp spec fn avif_encode_error(width: u32, height: u32, rgba: Seq<u8>, quality: u8, speed: u8, threads: usize) -> Seq<char>;

/// Text of the error reported when `data` does not decode to RGBA8.
pub uninterp spec fn avif_decode_error(data: Seq<u8>) -> Seq<char>;

/// AVIF file ravif encodes from RGBA pixels with the given quality, speed
/// and number of threads, or `None` when it reports an error.
pub uninterp spec fn avif_encoded(width: u32, height: u32, rgba: Seq<u8>, quality: u8, speed: u8, threads: usize) -> Option<Seq<u8>>;

/// Decode with `zenavif::decode_with` (`DecoderConfig::new().prefer_8bit(true)`,
/// never cancelled) and convert with `PixelBufferConvertExt::convert_to`
/// (RGBA8, sRGB) and `copy_to_contiguous_bytes`.
///
/// Trusted: the pixels and the error's text are functions of the bytes; a
/// layout with no conversion path to RGBA8 is reported as an error; the
/// contiguous RGBA8 copy holds exactly `width * height * 4` bytes.
#[verifier::external_body]
fn zenavif_decode_rgba(data: &[u8]) -> (r: core::result::Result<(u32, u32, Vec<u8>), String>)
    ensures
        match r {
            Ok((w, h, px)) => avif_decoded(data@) == Some((w, h, px@)) && px@.len() == w * h * 4,
            Err(m) => avif_decoded(data@) is None && m@ == avif_decode_error(data@),
        },
{
    let config = zenavif::DecoderConfig::new().prefer_8bit(true);
    let decoded = zenavif::decode_with(data, &config, &zenavif::Unstoppable).map_err(|e| format!("{e}"))?;
    let rgba = decoded.convert_to(zenpixels_convert::PixelDescriptor::RGBA8_SRGB).map_err(|e| format!("{e}"))?;
    Ok((rgba.width(), rgba.height(), rgba.copy_to_contiguous_bytes()))
}

/// Encode RGBA pixels with `ravif::Encoder` (`with_quality`, `with_speed`,
/// `with_num_threads(Some(threads))`, `encode_rgba`) over an `imgref::Img`.
///
/// Trusted: the file is a function of the arguments. ravif asserts a
/// quality in `1..=100`, a speed in `1..=10` and a nonzero thread count,
/// and `imgref::Img::new` a nonzero width; `requires` excludes the rest.
#[verifier::external_body]
fn ravif_encode_rgba(rgba: &[u8], width: u32, height: u32, quality: u8, speed: u8, threads: usize) -> (r: core::result::Result<Vec<u8>, String>)
    requires
        rgba@.len() == width * height * 4,
        width >= 1,
        1 <= quality <= 100,
        1 <= speed <= 10,
        threads >= 1,
    ensures
        match r {
            Ok(bytes) => avif_encoded(width, height, rgba@, quality, speed, threads) == Some(bytes@),
            Err(m) => avif_encoded(width, height, rgba@, quality, speed, threads) is None && m@ == avif_encode_error(
                width,
                height,
                rgba@,
                quality,
                speed,
                threads,
            ),
        },
{
    let buffer = imgref::Img::new(rgba.as_rgba(), width as usize, height as usize);
    let encoder = ravif::Encoder::new().with_quality(quality.into()).with_speed(speed).with_num_threads(Some(threads));
    encoder.encode_rgba(buffer).map(|encoded| encoded.avif_file).map_err(|e| format!("{e}"))
}

/// Quality handed to ravif: ravif refuses 0, so 0 becomes 1.
pub open spec fn ravif_quality(quality: u8) -> u8 {
    if quality == 0 {
        1
    } else {
        quality
    }
}

/// Speed handed to ravif: mapped from the effort, or rav1e's default 6.
pub open spec fn ravif_speed(effort: Option<u8>) -> u8 {
    match effort {
        Some(e) => spec_ravif_speed(e) as u8,
        None => 6,
    }
}

/// Threads handed to ravif: the requested budget, or a single thread.
pub open spec fn ravif_threads(threads: Option<usize>) -> usize {
    match threads {
        Some(n) => n,
        None => 1,
    }
}

impl Codec for AvifCodec {
    open spec fn spec_format(&self) -> Format {
        Format::Avif
    }

    open spec fn decoded(&self, data: Seq<u8>) -> Option<(u32, u32, Seq<u8>)> {
        avif_decoded(data)
    }

    open spec fn decode_error(&self, data: Seq<u8>) -> Seq<char> {
        "zenavif decode: "@ + avif_decode_error(data)
    }

    open spec fn encode_outcome(&self, width: u32, height: u32, rgba: Seq<u8>, options: EncodeOptions, out: Option<Seq<u8>>) -> bool {
        out == avif_encoded(
            width,
            height,
            rgba,
            ravif_quality(options.quality),
            ravif_speed(options.effort),
            ravif_threads(options.threads),
        )
    }

    /// ravif panics on a quality above 100 or a zero thread budget, and
    /// `imgref` on a zero width.
    open spec fn encode_error_ok(&self, width: u32, height: u32, rgba: Seq<u8>, options: EncodeOptions, message: Seq<char>) -> bool {
        message == "ravif encode: "@ + avif_encode_error(
            width,
            height,
            rgba,
            ravif_quality(options.quality),
            ravif_speed(options.effort),
            ravif_threads(options.threads),
        )
    }

    open spec fn encode_admits(&self, width: u32, height: u32, rgba: Seq<u8>, options: EncodeOptions) -> bool {
        &&& options.quality <= 100
        &&& options.threads != Some(0usize)
        &&& width >= 1
    }

    fn format(&self) -> (f: Format) {
        Format::Avif
    }

    fn decode(&self, data: &[u8]) -> (r: Result<ImageData>) {
        match zenavif_decode_rgba(data) {
            Ok((width, height, pixels)) => Ok(ImageData::new(width, height, pixels)),
            Err(message) => Err(Error::Decode(String::from_str("zenavif decode: ").concat(message.as_str()))),
        }
    }

    fn encode(&self, image: &ImageData, options: &EncodeOptions) -> (r: Result<Vec<u8>>) {
        let quality: u8 = if options.quality == 0 { 1 } else { options.quality };
        let speed: u8 = match options.effort {
            Some(effort) => effort_to_ravif_speed(effort),
            None => 6,
        };
        proof {
            if let Some(e) = options.effort {
                ravif_speed_in_range_and_monotone(e, e);
            }
        }
        let threads: usize = match options.threads {
            Some(n) => n,
            None => 1,
        };
        match ravif_encode_rgba(image.data.as_slice(), image.width, image.height, quality, speed, threads) {
            Ok(bytes) => Ok(bytes),
            Err(message) => Err(Error::Encode(String::from_str("ravif encode: ").concat(message.as_str()))),
        }
    }
}

/// Effort clamped to the documented 0..=100 range.
pub open spec fn clamped_effort(effort: u8) -> int {
    if effort > 100 {
        100
    } else {
        effort as int
    }
}

/// rav1e speed for an effort value: effort 0 is speed 10 (fastest),
/// effort 50 is speed 6 (rav1e's default) and effort 100 is speed 1.
pub open spec fn spec_ravif_speed(effort: u8) -> int {
    let e = clamped_effort(effort);
    if e <= 50 {
        10 - (e * 4 + 25) / 50
    } else {
        6 - ((e - 50) * 5 + 25) / 50
    }
}

/// Map an effort value (0..=100) onto ravif's speed scale (10..=1).
pub fn effort_to_ravif_speed(effort: u8) -> (r: u8)
    ensures
        r == spec_ravif_speed(effort),
{
    let effort: u16 = if effort > 100 { 100 } else { effort as u16 };
    if effort <= 50 {
        (10 - ((effort * 4 + 25) / 50)) as u8
    } else {
        (6 - (((effort - 50) * 5 + 25) / 50)) as u8
    }
}

/// The speed handed to ravif always lies in the range ravif accepts
/// (1..=10), and more effort never yields a faster speed.
pub proof fn ravif_speed_in_range_and_monotone(a: u8, b: u8)
    ensures
        1 <= spec_ravif_speed(a) <= 10,
        a <= b ==> spec_ravif_speed(b) <= spec_ravif_speed(a),
        spec_ravif_speed(0) == 10,
        spec_ravif_speed(50) == 6,
        spec_ravif_speed(100) == 1,
{
}

/// The quality handed to ravif is the requested quality, with 0 raised
/// to 1: it never falls as the requested quality rises, and an encode at
/// quality `q >= 1` is ravif's encode at exactly `q`.
pub proof fn ravif_gets_the_requested_quality(
    a: u8,
    b: u8,
    width: u32,
    height: u32,
    rgba: Seq<u8>,
    options: EncodeOptions,
    out: Option<Seq<u8>>,
)
    ensures
        ravif_quality(a) >= 1,
        a >= 1 ==> ravif_quality(a) == a,
        a <= b ==> ravif_quality(a) <= ravif_quality(b),
        options.quality >= 1 && AvifCodec.encode_outcome(width, height, rgba, options, out) ==> out == avif_encoded(
            width,
            height,
            rgba,
            options.quality,
            ravif_speed(options.effort),
            ravif_threads(options.threads),
        ),
{
}

} // verus!
