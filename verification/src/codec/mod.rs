pub mod avif;
pub mod jpeg;
pub mod jxl;
pub mod png;
pub mod qoi;
pub mod webp;

use vstd::prelude::*;

use crate::error::{Error, Result};
use crate::format::Format;

verus! {

/// Trait implemented by each image codec (JPEG, PNG, WebP, etc.).
///
/// `decoded` describes what a codec produces for given bytes (`None` when
/// it reports an error), `encode_outcome` which encoder outputs are possible
/// for given pixels (`None` for an error), and `encode_admits` which encode
/// requests the codec accepts at all.
pub trait Codec {
    /// The format handled by this codec.
    spec fn spec_format(&self) -> Format;

    /// Width, height and RGBA pixels decoded from `data`, or `None` on error.
    spec fn decoded(&self, data: Seq<u8>) -> Option<(u32, u32, Seq<u8>)>;

    /// Text of the `Decode` error reported for `data` when it does not decode.
    spec fn decode_error(&self, data: Seq<u8>) -> Seq<char>;

    /// Whether encoding the RGBA pixels may produce `out` (`None`: an error).
    spec fn encode_outcome(&self, width: u32, height: u32, rgba: Seq<u8>, options: EncodeOptions, out: Option<Seq<u8>>) -> bool;

    /// Whether `message` is the text of the `Encode` error the codec may
    /// report for the request.
    spec fn encode_error_ok(&self, width: u32, height: u32, rgba: Seq<u8>, options: EncodeOptions, message: Seq<char>) -> bool;

    /// Encode requests that the codec accepts.
    spec fn encode_admits(&self, width: u32, height: u32, rgba: Seq<u8>, options: EncodeOptions) -> bool;

    /// The image format handled by this codec.
    fn format(&self) -> (f: Format)
        ensures
            f == self.spec_format(),
    ;

    /// Decode raw file bytes into RGBA `ImageData`.
    fn decode(&self, data: &[u8]) -> (r: Result<ImageData>)
        ensures
            match r {
                Ok(img) => img.well_formed() && self.decoded(data@) == Some((img.width, img.height, img.data@)),
                Err(e) => self.decoded(data@) is None && (e matches Error::Decode(m) && m@ == self.decode_error(data@)),
            },
    ;

    /// Encode `ImageData` into the codec's file format.
    fn encode(&self, image: &ImageData, options: &EncodeOptions) -> (r: Result<Vec<u8>>)
        requires
            image.well_formed(),
            self.encode_admits(image.width, image.height, image.data@, *options),
        ensures
            match r {
                Ok(bytes) => self.encode_outcome(image.width, image.height, image.data@, *options, Some(bytes@)),
                Err(e) => self.encode_outcome(image.width, image.height, image.data@, *options, None) && (e matches Error::Encode(m)
                    && self.encode_error_ok(image.width, image.height, image.data@, *options, m@)),
            },
    ;
}

/// The codec that handles one image format, chosen by [`get_codec`].
pub struct FormatCodec {
    /// Format whose codec this is.
    pub format: Format,
}

/// What the codec for `format` decodes from `data`.
pub open spec fn codec_decoded(format: Format, data: Seq<u8>) -> Option<(u32, u32, Seq<u8>)> {
    match format {
        Format::Jpeg => jpeg::JpegCodec.decoded(data),
        Format::Png => png::PngCodec.decoded(data),
        Format::WebP => webp::WebPCodec.decoded(data),
        Format::Avif => avif::AvifCodec.decoded(data),
        Format::Jxl => jxl::JxlCodec.decoded(data),
        Format::Qoi => qoi::QoiCodec.decoded(data),
    }
}

/// Text of the error the codec for `format` reports when `data` does not decode.
pub open spec fn codec_decode_error(format: Format, data: Seq<u8>) -> Seq<char> {
    match format {
        Format::Jpeg => jpeg::JpegCodec.decode_error(data),
        Format::Png => png::PngCodec.decode_error(data),
        Format::WebP => webp::WebPCodec.decode_error(data),
        Format::Avif => avif::AvifCodec.decode_error(data),
        Format::Jxl => jxl::JxlCodec.decode_error(data),
        Format::Qoi => qoi::QoiCodec.decode_error(data),
    }
}

/// Whether the codec for `format` may encode the pixels as `out`.
pub open spec fn codec_encode_outcome(
    format: Format,
    width: u32,
    height: u32,
    rgba: Seq<u8>,
    options: EncodeOptions,
    out: Option<Seq<u8>>,
) -> bool {
    match format {
        Format::Jpeg => jpeg::JpegCodec.encode_outcome(width, height, rgba, options, out),
        Format::Png => png::PngCodec.encode_outcome(width, height, rgba, options, out),
        Format::WebP => webp::WebPCodec.encode_outcome(width, height, rgba, options, out),
        Format::Avif => avif::AvifCodec.encode_outcome(width, height, rgba, options, out),
        Format::Jxl => jxl::JxlCodec.encode_outcome(width, height, rgba, options, out),
        Format::Qoi => qoi::QoiCodec.encode_outcome(width, height, rgba, options, out),
    }
}

/// Whether `message` is an encode error text of the codec for `format`.
pub open spec fn codec_encode_error_ok(
    format: Format,
    width: u32,
    height: u32,
    rgba: Seq<u8>,
    options: EncodeOptions,
    message: Seq<char>,
) -> bool {
    match format {
        Format::Jpeg => jpeg::JpegCodec.encode_error_ok(width, height, rgba, options, message),
        Format::Png => png::PngCodec.encode_error_ok(width, height, rgba, options, message),
        Format::WebP => webp::WebPCodec.encode_error_ok(width, height, rgba, options, message),
        Format::Avif => avif::AvifCodec.encode_error_ok(width, height, rgba, options, message),
        Format::Jxl => jxl::JxlCodec.encode_error_ok(width, height, rgba, options, message),
        Format::Qoi => qoi::QoiCodec.encode_error_ok(width, height, rgba, options, message),
    }
}

/// Whether the codec for `format` accepts the encode request.
pub open spec fn codec_encode_admits(format: Format, width: u32, height: u32, rgba: Seq<u8>, options: EncodeOptions) -> bool {
    match format {
        Format::Jpeg => jpeg::JpegCodec.encode_admits(width, height, rgba, options),
        Format::Png => png::PngCodec.encode_admits(width, height, rgba, options),
        Format::WebP => webp::WebPCodec.encode_admits(width, height, rgba, options),
        Format::Avif => avif::AvifCodec.encode_admits(width, height, rgba, options),
        Format::Jxl => jxl::JxlCodec.encode_admits(width, height, rgba, options),
        Format::Qoi => qoi::QoiCodec.encode_admits(width, height, rgba, options),
    }
}

impl Codec for FormatCodec {
    open spec fn spec_format(&self) -> Format {
        self.format
    }

    open spec fn decoded(&self, data: Seq<u8>) -> Option<(u32, u32, Seq<u8>)> {
        codec_decoded(self.format, data)
    }

    open spec fn decode_error(&self, data: Seq<u8>) -> Seq<char> {
        codec_decode_error(self.format, data)
    }

    open spec fn encode_outcome(&self, width: u32, height: u32, rgba: Seq<u8>, options: EncodeOptions, out: Option<Seq<u8>>) -> bool {
        codec_encode_outcome(self.format, width, height, rgba, options, out)
    }

    open spec fn encode_admits(&self, width: u32, height: u32, rgba: Seq<u8>, options: EncodeOptions) -> bool {
        codec_encode_admits(self.format, width, height, rgba, options)
    }

    open spec fn encode_error_ok(&self, width: u32, height: u32, rgba: Seq<u8>, options: EncodeOptions, message: Seq<char>) -> bool {
        codec_encode_error_ok(self.format, width, height, rgba, options, message)
    }

    fn format(&self) -> (f: Format) {
        self.format
    }

    fn decode(&self, data: &[u8]) -> (r: Result<ImageData>) {
        match self.format {
            Format::Jpeg => jpeg::JpegCodec.decode(data),
            Format::Png => png::PngCodec.decode(data),
            Format::WebP => webp::WebPCodec.decode(data),
            Format::Avif => avif::AvifCodec.decode(data),
            Format::Jxl => jxl::JxlCodec.decode(data),
            Format::Qoi => qoi::QoiCodec.decode(data),
        }
    }

    fn encode(&self, image: &ImageData, options: &EncodeOptions) -> (r: Result<Vec<u8>>) {
        match self.format {
            Format::Jpeg => jpeg::JpegCodec.encode(image, options),
            Format::Png => png::PngCodec.encode(image, options),
            Format::WebP => webp::WebPCodec.encode(image, options),
            Format::Avif => avif::AvifCodec.encode(image, options),
            Format::Jxl => jxl::JxlCodec.encode(image, options),
            Format::Qoi => qoi::QoiCodec.encode(image, options),
        }
    }
}

/// Whether the codec for `format` accepts encoding `image` with `options`
/// (see [`Codec::encode`]'s requirement).
pub fn encode_admitted(format: Format, image: &ImageData, options: &EncodeOptions) -> (r: bool)
    ensures
        r == codec_encode_admits(format, image.width, image.height, image.data@, *options),
{
    match format {
        Format::Jpeg => true,
        Format::Qoi => true,
        Format::Jxl => true,
        Format::Png => true,
        Format::WebP => {
            options.effort.is_some() || (1 <= image.width && image.width <= webp::WEBP_MAX_DIMENSION && 1 <= image.height
                && image.height <= webp::WEBP_MAX_DIMENSION && options.quality <= 100)
        },
        Format::Avif => {
            let zero_threads = match options.threads {
                Some(n) => n == 0,
                None => false,
            };
            options.quality <= 100 && !zero_threads && image.width >= 1
        },
    }
}

/// Return the appropriate codec for the given format.
pub fn get_codec(format: Format) -> (c: FormatCodec)
    ensures
        c.spec_format() == format,
{
    FormatCodec { format }
}

/// Width, height and RGBA pixels that the `image` crate decodes from
/// `data` read as `format`, or `None` when it reports an error.
pub uninterp spec fn image_crate_decoded(data: Seq<u8>, format: Format) -> Option<(u32, u32, Seq<u8>)>;

/// Text of the error the `image` crate reports for `data` read as `format`.
pub uninterp spec fn image_crate_error(data: Seq<u8>, format: Format) -> Seq<char>;

/// The `image` crate's default allocation limit for decoding (512 MiB):
/// an image whose RGBA8 pixels fit in it is not refused for its size.
pub const IMAGE_DECODE_LIMIT: u64 = 536870912;

/// Decode with `image::load_from_memory_with_format` and convert to RGBA8.
///
/// Trusted: the result and the error's text are the decoder's (functions
/// of the bytes and the format), and the RGBA buffer
/// `DynamicImage::to_rgba8` returns holds exactly four bytes per pixel.
#[verifier::external_body]
fn decode_rgba_with_image_crate(data: &[u8], format: Format) -> (r: core::result::Result<(u32, u32, Vec<u8>), String>)
    requires
        format == Format::Png || format == Format::WebP || format == Format::Jpeg,
    ensures
        match r {
            Ok((w, h, px)) => image_crate_decoded(data@, format) == Some((w, h, px@)) && px@.len() == w * h * 4,
            Err(m) => image_crate_decoded(data@, format) is None && m@ == image_crate_error(data@, format),
        },
{
    let image_format = match format {
        Format::WebP => image::ImageFormat::WebP,
        Format::Jpeg => image::ImageFormat::Jpeg,
        _ => image::ImageFormat::Png,
    };
    match image::load_from_memory_with_format(data, image_format) {
        Ok(img) => {
            let rgba = img.to_rgba8();
            Ok((rgba.width(), rgba.height(), rgba.into_raw()))
        },
        Err(e) => Err(format!("{e}")),
    }
}

/// Decode through the `image` crate into `ImageData`.
pub(crate) fn decode_via_image_crate(data: &[u8], format: Format, codec_name: &str) -> (r: Result<ImageData>)
    requires
        format == Format::Png || format == Format::WebP || format == Format::Jpeg,
    ensures
        match r {
            Ok(img) => img.well_formed() && image_crate_decoded(data@, format) == Some((img.width, img.height, img.data@)),
            Err(e) => image_crate_decoded(data@, format) is None && (e matches Error::Decode(m) && m@ == codec_name@ + " decode: "@
                + image_crate_error(data@, format)),
        },
{
    match decode_rgba_with_image_crate(data, format) {
        Ok((width, height, pixels)) => Ok(ImageData::new(width, height, pixels)),
        Err(message) => Err(Error::Decode(String::from_str(codec_name).concat(" decode: ").concat(message.as_str()))),
    }
}

/// Decoded image data in RGBA format (4 bytes per pixel).
#[derive(Debug, Clone)]
pub struct ImageData {
    pub width: u32,
    pub height: u32,
    pub data: Vec<u8>,
}

impl ImageData {
    /// The pixel buffer holds exactly `width * height` RGBA pixels.
    pub open spec fn well_formed(&self) -> bool {
        self.data@.len() == self.width * self.height * 4
    }

    /// Create a new `ImageData` from a buffer of `width * height` RGBA pixels.
    pub fn new(width: u32, height: u32, data: Vec<u8>) -> (r: ImageData)
        requires
            data@.len() == width * height * 4,
        ensures
            r.width == width,
            r.height == height,
            r.data@ == data@,
            r.well_formed(),
    {
        ImageData { width, height, data }
    }

    /// Convert RGBA pixel data to RGB by dropping the alpha channel.
    pub fn to_rgb(&self) -> (r: Vec<u8>)
        ensures
            r@ == rgb_of(self.data@),
    {
        let len = self.data.len();
        let n = len / 4;
        let mut out: Vec<u8> = Vec::new();
        let mut p: usize = 0;
        while p < n
            invariant
                len == self.data@.len(),
                n == len / 4,
                p <= n,
                out@.len() == 3 * p,
                forall|q: int, c: int|
                    0 <= q < p && 0 <= c < 3 ==> #[trigger] out@[3 * q + c] == self.data@[4 * q
                        + c],
            decreases n - p,
        {
            assert(4 * p + 3 < len);
            let base = 4 * p;
            out.push(self.data[base]);
            out.push(self.data[base + 1]);
            out.push(self.data[base + 2]);
            proof {
                assert forall|q: int, c: int| 0 <= q < p + 1 && 0 <= c < 3 implies #[trigger] out@[3
                    * q + c] == self.data@[4 * q + c] by {
                    if q < p {
                    } else {
                        assert(3 * q + c == 3 * p + c);
                    }
                }
            }
            p = p + 1;
        }
        proof {
            lemma_rgb_of(self.data@, out@);
        }
        out
    }
}

/// Options for encoding an image.
#[derive(Debug, Clone, Copy)]
pub struct EncodeOptions {
    /// Quality value in the range 0..=100.
    pub quality: u8,
    /// Optional effort value in the range 0..=100.
    ///
    /// Higher values favor smaller output at the cost of slower encoding.
    pub effort: Option<u8>,
    /// Palette quantization mode for PNG output.
    pub png_palette: PngPaletteMode,
    /// Preferred encoder for JPEG XL output.
    pub jxl_encoder: JxlEncoderPreference,
    /// Optional thread budget for codecs that support internal parallelism.
    pub threads: Option<usize>,
}

impl Default for EncodeOptions {
    fn default() -> (r: Self)
        ensures
            r.quality == 80,
            r.effort is None,
            r.png_palette == PngPaletteMode::Off,
            r.jxl_encoder == JxlEncoderPreference::Libjxl,
            r.threads is None,
    {
        EncodeOptions {
            quality: 80,
            effort: None,
            png_palette: PngPaletteMode::Off,
            jxl_encoder: JxlEncoderPreference::Libjxl,
            threads: None,
        }
    }
}

/// Preferred encoder for JPEG XL output.
///
/// GJXL remains an experimental, best-effort preference. Unsupported requests
/// fall back to libjxl; callers that need to observe that decision can use
/// [`jxl::encode_with_diagnostics`].
#[derive(Debug, Clone, Copy, PartialEq, Eq, Default, Structural)]
pub enum JxlEncoderPreference {
    /// Always encode JPEG XL with libjxl.
    #[default]
    Libjxl,
    /// Prefer GJXL when it is compiled in and the request is supported.
    PreferGjxl,
}

/// Palette quantization mode for PNG encoding.
#[derive(Debug, Clone, Copy, PartialEq, Eq, Default, Structural)]
pub enum PngPaletteMode {
    /// Encode PNGs with the existing lossless RGBA pipeline.
    #[default]
    Off,
    /// Use palette output only when conservative size and quality checks pass.
    Auto,
    /// Force palette output for PNGs.
    On,
}

/// The RGB bytes of the whole pixels of an RGBA buffer: every fourth byte
/// (alpha) is dropped and a trailing partial pixel is ignored.
pub open spec fn rgb_of(rgba: Seq<u8>) -> Seq<u8>
    decreases rgba.len(),
{
    if rgba.len() < 4 {
        seq![]
    } else {
        seq![rgba[0], rgba[1], rgba[2]] + rgb_of(rgba.subrange(4, rgba.len() as int))
    }
}

pub(crate) proof fn lemma_rgb_of_len(rgba: Seq<u8>)
    ensures
        rgb_of(rgba).len() == 3 * (rgba.len() / 4),
    decreases rgba.len(),
{
    if rgba.len() >= 4 {
        lemma_rgb_of_len(rgba.subrange(4, rgba.len() as int));
    }
}

proof fn lemma_rgb_of_index(rgba: Seq<u8>, q: int, c: int)
    requires
        0 <= q < rgba.len() / 4,
        0 <= c < 3,
    ensures
        rgb_of(rgba).len() == 3 * (rgba.len() / 4),
        rgb_of(rgba)[3 * q + c] == rgba[4 * q + c],
    decreases q,
{
    lemma_rgb_of_len(rgba);
    let rest = rgba.subrange(4, rgba.len() as int);
    lemma_rgb_of_len(rest);
    if q > 0 {
        lemma_rgb_of_index(rest, q - 1, c);
    }
}

proof fn lemma_rgb_of(rgba: Seq<u8>, out: Seq<u8>)
    requires
        out.len() == 3 * (rgba.len() / 4),
        forall|q: int, c: int|
            0 <= q < rgba.len() / 4 && 0 <= c < 3 ==> #[trigger] out[3 * q + c] == rgba[4 * q + c],
    ensures
        out == rgb_of(rgba),
{
    lemma_rgb_of_len(rgba);
    assert forall|i: int| 0 <= i < out.len() implies out[i] == rgb_of(rgba)[i] by {
        let q = i / 3;
        let c = i % 3;
        assert(i == 3 * q + c);
        lemma_rgb_of_index(rgba, q, c);
    }
    assert(out =~= rgb_of(rgba));
}

} // verus!
