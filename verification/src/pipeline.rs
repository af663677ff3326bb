use vstd::prelude::*;

use crate::codec::{
    codec_decode_error, codec_decoded, codec_encode_admits, codec_encode_error_ok, codec_encode_outcome, encode_admitted, get_codec, Codec,
    EncodeOptions, ImageData, JxlEncoderPreference, PngPaletteMode, IMAGE_DECODE_LIMIT,
};
use crate::crop::{crop, crop_error, crop_rect, region_pixels, CropMode};
use crate::error::{Error, Result};
use crate::extend::{canvas_pixels, canvas_size, extend, extend_error, fill_rgba, ExtendMode, FillColor};
use crate::resize::{lanczos_resized, resize, resize_error, resize_size, ResizeMode};
use crate::format::{detected_format, spec_can_encode, spec_extension, Format};

verus! {

/// Options for a conversion pipeline.
#[derive(Debug, Clone, Copy)]
pub struct PipelineOptions {
    /// Target output format.
    pub format: Format,
    /// Encoding quality (0..=100).
    pub quality: u8,
    /// Optional encoder effort (0..=100).
    ///
    /// Higher values favor smaller output at the cost of slower encoding.
    pub effort: Option<u8>,
    /// Palette quantization mode for PNG output.
    pub png_palette: PngPaletteMode,
    /// Preferred encoder for JPEG XL output.
    pub jxl_encoder: JxlEncoderPreference,
    /// Optional thread budget for internally-threaded encoders.
    pub threads: Option<usize>,
    /// Optional resize to apply before encoding.
    pub resize: Option<ResizeMode>,
    /// Optional crop to apply before encoding.
    pub crop: Option<CropMode>,
    /// Optional extend (padding) to apply after crop and before resize.
    pub extend: Option<ExtendMode>,
    /// Fill color for the extended region (defaults to opaque white).
    pub fill_color: Option<FillColor>,
}

/// Result of a pipeline conversion.
#[derive(Debug, Clone)]
pub struct PipelineResult {
    /// Encoded image bytes.
    pub data: Vec<u8>,
    /// Format of the encoded data.
    pub format: Format,
    /// Width of the output image in pixels.
    pub width: u32,
    /// Height of the output image in pixels.
    pub height: u32,
}

/// The encoder settings a pipeline passes to the codec.
pub open spec fn encode_options_of(options: PipelineOptions) -> EncodeOptions {
    EncodeOptions {
        quality: options.quality,
        effort: options.effort,
        png_palette: options.png_palette,
        jxl_encoder: options.jxl_encoder,
        threads: options.threads,
    }
}

/// What `decode` reports for `data`: the format is detected from the magic
/// bytes, then the codec for that format decodes the image.
pub open spec fn decode_ok(data: Seq<u8>, r: Result<(ImageData, Format)>) -> bool {
    match detected_format(data) {
        None => r matches Err(Error::UnknownFormat(m)) && m@ == "unrecognised magic bytes"@,
        Some(format) => match codec_decoded(format, data) {
            Some((w, h, px)) => r matches Ok((image, f)) && f == format && image.well_formed()
                && image.width == w && image.height == h && image.data@ == px,
            None => r matches Err(Error::Decode(m)) && m@ == codec_decode_error(format, data),
        },
    }
}

/// Detect the format from magic bytes and decode the raw image data.
pub fn decode(data: &[u8]) -> (r: Result<(ImageData, Format)>)
    ensures
        decode_ok(data@, r),
{
    let format = match Format::from_magic_bytes(data) {
        Some(format) => format,
        None => {
            return Err(Error::UnknownFormat(String::from_str("unrecognised magic bytes")));
        },
    };
    let codec = get_codec(format);
    match codec.decode(data) {
        Ok(image) => Ok((image, format)),
        Err(e) => Err(e),
    }
}

/// The error reported when the codec refuses an image with the given options.
pub open spec fn refused_message(format: Format) -> Seq<char> {
    "the "@ + spec_extension(format) + " encoder does not accept this image with these options"@
}

/// What a pipeline encode reports for a `w` x `h` image of pixels `px`:
/// the codec's result with the format and dimensions, or the codec's error
/// unchanged.
pub open spec fn encoded_as(w: u32, h: u32, px: Seq<u8>, format: Format, options: EncodeOptions, r: Result<PipelineResult>) -> bool {
    match r {
        Ok(result) => result.format == format && result.width == w && result.height == h && codec_encode_outcome(
            format,
            w,
            h,
            px,
            options,
            Some(result.data@),
        ),
        Err(e) => codec_encode_outcome(format, w, h, px, options, None) && (e matches Error::Encode(m) && codec_encode_error_ok(
            format,
            w,
            h,
            px,
            options,
            m@,
        )),
    }
}

/// Size and pixels after the optional crop.
pub open spec fn cropped(w: int, h: int, px: Seq<u8>, mode: Option<CropMode>) -> Option<(int, int, Seq<u8>)> {
    match mode {
        None => Some((w, h, px)),
        Some(m) => match crop_rect(w, h, m) {
            Some((x, y, cw, ch)) => Some((cw, ch, region_pixels(px, w, x, y, cw, ch))),
            None => None,
        },
    }
}

/// The fill color of the extended area: opaque white unless one is given.
pub open spec fn fill_or_white(fill: Option<FillColor>) -> FillColor {
    match fill {
        Some(f) => f,
        None => FillColor::Solid([255u8, 255, 255, 255]),
    }
}

/// Size and pixels after the optional extension.
pub open spec fn extended(w: int, h: int, px: Seq<u8>, mode: Option<ExtendMode>, fill: Option<FillColor>) -> Option<(int, int, Seq<u8>)> {
    match mode {
        None => Some((w, h, px)),
        Some(m) => match canvas_size(w, h, m) {
            Some((cw, ch)) => Some((cw, ch, canvas_pixels(px, w, h, cw, ch, (cw - w) / 2, (ch - h) / 2, fill_rgba(fill_or_white(fill))))),
            None => None,
        },
    }
}

/// Size and pixels after the optional resize.
pub open spec fn resized(w: int, h: int, px: Seq<u8>, mode: Option<ResizeMode>) -> Option<(int, int, Seq<u8>)> {
    match mode {
        None => Some((w, h, px)),
        Some(m) => match resize_size(w, h, m) {
            Some((nw, nh)) => Some((nw, nh, lanczos_resized(w as u32, h as u32, px, nw as u32, nh as u32))),
            None => None,
        },
    }
}

/// Size and pixels of the image after crop, then extend, then resize, or
/// `None` when one of them fails.
pub open spec fn transformed(image: ImageData, options: PipelineOptions) -> Option<(int, int, Seq<u8>)> {
    match cropped(image.width as int, image.height as int, image.data@, options.crop) {
        Some((w1, h1, p1)) => match extended(w1, h1, p1, options.extend, options.fill_color) {
            Some((w2, h2, p2)) => resized(w2, h2, p2, options.resize),
            None => None,
        },
        None => None,
    }
}

/// The error of the first transformation that fails.
pub open spec fn transform_error_ok(image: ImageData, options: PipelineOptions, e: Error) -> bool {
    match cropped(image.width as int, image.height as int, image.data@, options.crop) {
        None => e matches Error::Crop(m) && m@ == crop_error(image.width as int, image.height as int, options.crop->Some_0),
        Some((w1, h1, p1)) => match extended(w1, h1, p1, options.extend, options.fill_color) {
            None => e matches Error::Extend(m) && m@ == extend_error(w1, h1, options.extend->Some_0),
            Some((w2, h2, p2)) => e matches Error::Resize(m) && m@ == resize_error(w2, h2, options.resize->Some_0),
        },
    }
}

/// Apply the pipeline's crop, extend (with its fill color) and resize, in
/// that order.
pub fn transform(image: &ImageData, options: &PipelineOptions) -> (r: Result<ImageData>)
    requires
        image.well_formed(),
    ensures
        match transformed(*image, *options) {
            Some((w, h, px)) => r matches Ok(out) && out.well_formed() && out.width == w && out.height == h && out.data@ == px,
            None => r matches Err(e) && transform_error_ok(*image, *options, e),
        },
{
    let after_crop: Option<ImageData> = match &options.crop {
        Some(mode) => match crop(image, mode) {
            Ok(out) => Some(out),
            Err(e) => return Err(e),
        },
        None => None,
    };
    let current: &ImageData = match &after_crop {
        Some(out) => out,
        None => image,
    };
    let after_extend: Option<ImageData> = match &options.extend {
        Some(mode) => {
            let fill = match options.fill_color {
                Some(f) => f,
                None => FillColor::Solid([255u8, 255, 255, 255]),
            };
            match extend(current, mode, &fill) {
                Ok(out) => Some(out),
                Err(e) => return Err(e),
            }
        },
        None => None,
    };
    let current: &ImageData = match &after_extend {
        Some(out) => out,
        None => current,
    };
    match &options.resize {
        Some(mode) => resize(current, mode),
        None => Ok(ImageData { width: current.width, height: current.height, data: current.data.clone() }),
    }
}

/// What `convert` reports: formats that cannot be encoded are refused;
/// then the transformations' error passes through; an image the codec
/// refuses with these options is reported as an encode error; otherwise
/// the transformed image is encoded.
pub open spec fn convert_outcome(image: ImageData, options: PipelineOptions, r: Result<PipelineResult>) -> bool {
    if !spec_can_encode(options.format) {
        r matches Err(Error::EncodingNotSupported(f)) && f == options.format
    } else {
        match transformed(image, options) {
            None => r matches Err(e) && transform_error_ok(image, options, e),
            Some((w, h, px)) => if codec_encode_admits(options.format, w as u32, h as u32, px, encode_options_of(options)) {
                encoded_as(w as u32, h as u32, px, options.format, encode_options_of(options), r)
            } else {
                r matches Err(Error::Encode(m)) && m@ == refused_message(options.format)
            },
        }
    }
}

/// Convert an image to the specified format, after the optional crop,
/// extend and resize.
pub fn convert(image: &ImageData, options: &PipelineOptions) -> (r: Result<PipelineResult>)
    requires
        image.well_formed(),
    ensures
        convert_outcome(*image, *options, r),
{
    if !options.format.can_encode() {
        return Err(Error::EncodingNotSupported(options.format));
    }
    let image = match transform(image, options) {
        Ok(out) => out,
        Err(e) => return Err(e),
    };
    let encode_opts = EncodeOptions {
        quality: options.quality,
        effort: options.effort,
        png_palette: options.png_palette,
        jxl_encoder: options.jxl_encoder,
        threads: options.threads,
    };
    if !encode_admitted(options.format, &image, &encode_opts) {
        let message = String::from_str("the ").concat(options.format.extension()).concat(
            " encoder does not accept this image with these options",
        );
        return Err(Error::Encode(message));
    }
    let codec = get_codec(options.format);
    match codec.encode(&image, &encode_opts) {
        Ok(data) => Ok(PipelineResult { data, format: options.format, width: image.width, height: image.height }),
        Err(e) => Err(e),
    }
}

/// What `optimize_with_options` reports for `data`: decode errors pass
/// through; a decoded image the codec refuses with these options is
/// reported as an encode error; otherwise the image is re-encoded in its
/// own format and the codec's error, if any, passes through.
pub open spec fn optimized_ok(data: Seq<u8>, options: EncodeOptions, r: Result<PipelineResult>) -> bool {
    match detected_format(data) {
        None => r matches Err(Error::UnknownFormat(m)) && m@ == "unrecognised magic bytes"@,
        Some(format) => match codec_decoded(format, data) {
            None => r matches Err(Error::Decode(m)) && m@ == codec_decode_error(format, data),
            Some((w, h, px)) => {
                if !spec_can_encode(format) {
                    r matches Err(Error::EncodingNotSupported(f)) && f == format
                } else if codec_encode_admits(format, w, h, px, options) {
                    match r {
                        Ok(result) => result.format == format && result.width == w && result.height == h
                            && codec_encode_outcome(format, w, h, px, options, Some(result.data@)),
                        Err(e) => codec_encode_outcome(format, w, h, px, options, None) && (e matches Error::Encode(m)
                            && codec_encode_error_ok(format, w, h, px, options, m@)),
                    }
                } else {
                    r matches Err(Error::Encode(m)) && m@ == refused_message(format)
                }
            },
        },
    }
}

/// Decode the data and re-encode in the same format at the given quality.
pub fn optimize(data: &[u8], quality: u8) -> (r: Result<PipelineResult>)
    ensures
        optimized_ok(data@, EncodeOptions {
            quality,
            effort: None,
            png_palette: PngPaletteMode::Off,
            jxl_encoder: JxlEncoderPreference::Libjxl,
            threads: None,
        }, r),
{
    optimize_with_threads(data, quality, None)
}

/// Decode the data and re-encode in the same format at the given quality and thread budget.
pub fn optimize_with_threads(data: &[u8], quality: u8, threads: Option<usize>) -> (r: Result<PipelineResult>)
    ensures
        optimized_ok(data@, EncodeOptions {
            quality,
            effort: None,
            png_palette: PngPaletteMode::Off,
            jxl_encoder: JxlEncoderPreference::Libjxl,
            threads,
        }, r),
{
    optimize_with_options(
        data,
        EncodeOptions {
            quality,
            effort: None,
            png_palette: PngPaletteMode::Off,
            jxl_encoder: JxlEncoderPreference::Libjxl,
            threads,
        },
    )
}

/// Decode the data and re-encode in the same format with full encoding options.
pub fn optimize_with_options(data: &[u8], encode_opts: EncodeOptions) -> (r: Result<PipelineResult>)
    ensures
        optimized_ok(data@, encode_opts, r),
{
    let (image, format) = match decode(data) {
        Ok(decoded) => decoded,
        Err(e) => return Err(e),
    };
    if !format.can_encode() {
        return Err(Error::EncodingNotSupported(format));
    }
    if !encode_admitted(format, &image, &encode_opts) {
        let message = String::from_str("the ").concat(format.extension()).concat(
            " encoder does not accept this image with these options",
        );
        return Err(Error::Encode(message));
    }
    let codec = get_codec(format);
    match codec.encode(&image, &encode_opts) {
        Ok(encoded) => Ok(PipelineResult { data: encoded, format, width: image.width, height: image.height }),
        Err(e) => Err(e),
    }
}

/// Optimizing keeps the image's format and size: a successful result has
/// the format detected from the input and the decoded dimensions.
pub proof fn optimize_keeps_format_and_size(data: Seq<u8>, options: EncodeOptions, r: Result<PipelineResult>)
    requires
        optimized_ok(data, options, r),
        r is Ok,
    ensures
        match (detected_format(data), r) {
            (Some(format), Ok(result)) => result.format == format && (codec_decoded(format, data) matches Some(
                (w, h, px),
            ) && result.width == w && result.height == h),
            _ => false,
        },
{
}

/// Optimizing a QOI file, or a PNG file without palette output (within the
/// decoder's allocation limit), is lossless: the new file decodes to exactly the image the input decodes to.
pub proof fn optimize_is_lossless(data: Seq<u8>, options: EncodeOptions, r: Result<PipelineResult>)
    requires
        optimized_ok(data, options, r),
        detected_format(data) == Some(Format::Qoi) || (detected_format(data) == Some(Format::Png)
            && options.png_palette == PngPaletteMode::Off && (codec_decoded(Format::Png, data) matches Some((w, h, px)) && w * h * 4
            <= IMAGE_DECODE_LIMIT)),
        r is Ok,
    ensures
        codec_decoded(r->Ok_0.format, r->Ok_0.data@) == codec_decoded(r->Ok_0.format, data),
{
}

/// Converting keeps the image's size and yields the requested format.
pub proof fn convert_keeps_size(image: ImageData, options: PipelineOptions, r: Result<PipelineResult>)
    requires
        convert_outcome(image, options, r),
        options.crop is None,
        options.extend is None,
        options.resize is None,
        r is Ok,
    ensures
        r->Ok_0.format == options.format,
        r->Ok_0.width == image.width,
        r->Ok_0.height == image.height,
{
}

/// Whether an optimized file is written: when it is smaller than the
/// original, or when the original is overwritten anyway.
pub fn keep_optimized(original_size: u64, new_size: u64, overwrite: bool) -> (r: bool)
    ensures
        r == (new_size < original_size || overwrite),
{
    new_size < original_size || overwrite
}

/// The path `std::path::Path::with_extension` gives for `path` and `extension`.
pub uninterp spec fn path_with_extension(path: Seq<char>, extension: Seq<char>) -> Seq<char>;

/// The final component `std::path::Path::file_name` gives for `path`, if any.
pub uninterp spec fn path_file_name(path: Seq<char>) -> Option<Seq<char>>;

/// The path `std::path::Path::join` gives for `base` and `path`.
pub uninterp spec fn path_join(base: Seq<char>, path: Seq<char>) -> Seq<char>;

/// `Path::new(path).with_extension(extension)`, as text.
///
/// Trusted: the result is a function of the two strings; a path built from
/// UTF-8 pieces is UTF-8, so the text conversion loses nothing. std panics
/// on an extension holding a path separator, which `requires` excludes.
#[verifier::external_body]
fn with_extension(path: &str, extension: &str) -> (r: String)
    requires
        !extension@.contains('/'),
    ensures
        r@ == path_with_extension(path@, extension@),
{
    std::path::Path::new(path).with_extension(extension).to_string_lossy().into_owned()
}

/// `Path::new(path).file_name()`, as text.
///
/// Trusted: the result is a function of the string.
#[verifier::external_body]
fn file_name(path: &str) -> (r: Option<String>)
    ensures
        match r {
            Some(name) => path_file_name(path@) == Some(name@),
            None => path_file_name(path@) is None,
        },
{
    std::path::Path::new(path).file_name().map(|name| name.to_string_lossy().into_owned())
}

/// `Path::new(base).join(path)`, as text.
///
/// Trusted: the result is a function of the two strings.
#[verifier::external_body]
fn join(base: &str, path: &str) -> (r: String)
    ensures
        r@ == path_join(base@, path@),
{
    std::path::Path::new(base).join(path).to_string_lossy().into_owned()
}

proof fn lemma_extension_has_no_separator(format: Format)
    ensures
        !spec_extension(format).contains('/'),
{
    let e = spec_extension(format);
    assert forall|i: int| 0 <= i < e.len() implies e[i] != '/' by {}
}

/// Output path for a converted file: without an output, the input with the
/// format's extension; inside an output directory, the file name of that
/// path; otherwise the output as given.
pub open spec fn spec_output_path(input: Seq<char>, format: Format, output: Option<Seq<char>>, output_is_dir: bool) -> Seq<char> {
    let extension = spec_extension(format);
    match output {
        None => path_with_extension(input, extension),
        Some(out) => if output_is_dir {
            let name = match path_file_name(path_with_extension(input, extension)) {
                Some(name) => name,
                None => Seq::empty(),
            };
            path_join(out, name)
        } else {
            out
        },
    }
}

/// Derive an output path for the converted image.
///
/// - If `output` is `None`, uses the input directory with the new extension.
/// - If `output` is a directory (`output_is_dir`), places the file there
///   with the new extension.
/// - Otherwise, uses `output` as-is.
pub fn output_path(input: &str, format: Format, output: Option<&str>, output_is_dir: bool) -> (r: String)
    ensures
        r@ == spec_output_path(input@, format, match output {
            Some(out) => Some(out@),
            None => None,
        }, output_is_dir),
{
    let extension = format.extension();
    proof {
        lemma_extension_has_no_separator(format);
    }
    match output {
        None => with_extension(input, extension),
        Some(out) => {
            if output_is_dir {
                let renamed = with_extension(input, extension);
                let name = match file_name(renamed.as_str()) {
                    Some(name) => name,
                    None => String::new(),
                };
                join(out, name.as_str())
            } else {
                String::from_str(out)
            }
        },
    }
}

/// Without a fill color, the area that extending adds is opaque white.
pub proof fn default_fill_is_opaque_white(k: int)
    requires
        0 <= k < 4,
    ensures
        fill_rgba(fill_or_white(None))[k] == 255,
{
}

} // verus!
