use std::collections::HashMap;
use std::io::Cursor;

use image::ImageEncoder;
use rgb::{ComponentBytes, FromSlice};
use vstd::prelude::*;

use super::avif::clamped_effort;
use super::{decode_via_image_crate, image_crate_decoded, image_crate_error, Codec, IMAGE_DECODE_LIMIT, EncodeOptions, ImageData, PngPaletteMode};
use crate::error::{Error, Result};
use crate::format::Format;
use crate::palette::{
    analyze_palette_suitability, color_counts, counts_match, distinct_colors, index_matches, lemma_distinct_props, packed_color,
    palette_stats_of, pixel_colors, PaletteRecommendation,
};

verus! {

broadcast use vstd::std_specs::hash::group_hash_axioms;

/// PNG codec backed by OxiPNG for optimization.
pub struct PngCodec;

/// RGBA bytes of a packed color (inverse of the big-endian packing).
pub open spec fn color_bytes(c: u32) -> Seq<u8> {
    seq![(c / 16777216) as u8, ((c / 65536) % 256) as u8, ((c / 256) % 256) as u8, (c % 256) as u8]
}

proof fn lemma_color_bytes(a: u8, b: u8, c: u8, d: u8)
    ensures
        color_bytes((a * 16777216 + b * 65536 + c * 256 + d) as u32) == seq![a, b, c, d],
{
    let p: int = a * 16777216 + b * 65536 + c * 256 + d;
    vstd::arithmetic::div_mod::lemma_fundamental_div_mod_converse(p, 16777216, a as int, b * 65536 + c * 256 + d);
    vstd::arithmetic::div_mod::lemma_fundamental_div_mod_converse(p, 65536, a * 256 + b, c * 256 + d);
    vstd::arithmetic::div_mod::lemma_fundamental_div_mod_converse(a * 256 + b, 256, a as int, b as int);
    vstd::arithmetic::div_mod::lemma_fundamental_div_mod_converse(p, 256, a * 65536 + b * 256 + c, d as int);
    vstd::arithmetic::div_mod::lemma_fundamental_div_mod_converse(a * 65536 + b * 256 + c, 256, a * 256 + b, c as int);
    assert(color_bytes(p as u32) =~= seq![a, b, c, d]);
}

/// Palette entries of the exact palette: each distinct color in order of
/// first appearance, as RGBA bytes.
pub open spec fn exact_palette_entries(rgba: Seq<u8>) -> Seq<Seq<u8>> {
    distinct_colors(pixel_colors(rgba)).map_values(|c: u32| color_bytes(c))
}

/// Palette index of each pixel in the exact palette.
pub open spec fn exact_palette_indices(rgba: Seq<u8>) -> Seq<u8> {
    let s = pixel_colors(rgba);
    Seq::new(s.len(), |i: int| distinct_colors(s).index_of(s[i]) as u8)
}

/// Whether the image has few enough colors for an exact palette.
pub open spec fn fits_exact_palette(rgba: Seq<u8>) -> bool {
    distinct_colors(pixel_colors(rgba)).len() <= 256
}

/// The exact palette is lossless: when the image has at most 256 colors,
/// the palette entry chosen for every pixel is that pixel's RGBA bytes.
pub proof fn exact_palette_reproduces_pixels(rgba: Seq<u8>, i: int)
    requires
        fits_exact_palette(rgba),
        0 <= i < rgba.len() / 4,
    ensures
        exact_palette_indices(rgba)[i] < exact_palette_entries(rgba).len(),
        exact_palette_entries(rgba)[exact_palette_indices(rgba)[i] as int] == rgba.subrange(4 * i, 4 * i + 4),
{
    let s = pixel_colors(rgba);
    let dc = distinct_colors(s);
    lemma_distinct_props(s);
    assert(s[i] == packed_color(rgba, i));
    assert(s.contains(s[i]));
    assert(dc.contains(s[i]));
    let k = dc.index_of(s[i]);
    assert(0 <= k < dc.len() && dc[k] == s[i]);
    assert(exact_palette_indices(rgba)[i] == k as u8);
    assert(k as u8 == k);
    lemma_color_bytes(rgba[4 * i], rgba[4 * i + 1], rgba[4 * i + 2], rgba[4 * i + 3]);
    assert(color_bytes(s[i]) =~= rgba.subrange(4 * i, 4 * i + 4));
}

/// Build the exact palette of an image: every distinct color in order of
/// first appearance and each pixel's index, or `None` beyond 256 colors.
fn exact_palette(image: &ImageData) -> (r: Option<(Vec<[u8; 4]>, Vec<u8>)>)
    ensures
        match r {
            Some((palette, indices)) => {
                &&& fits_exact_palette(image.data@)
                &&& palette@.map_values(|e: [u8; 4]| e@) == exact_palette_entries(image.data@)
                &&& indices@ == exact_palette_indices(image.data@)
            },
            None => !fits_exact_palette(image.data@),
        },
{
    let len = image.data.len();
    let n = len / 4;
    let ghost d = image.data@;
    let ghost s = pixel_colors(d);
    let mut color_to_index: HashMap<u32, usize> = HashMap::new();
    let mut palette: Vec<[u8; 4]> = Vec::new();
    let mut indices: Vec<u8> = Vec::new();
    let mut i: usize = 0;
    proof {
        assert(s.take(0) =~= Seq::<u32>::empty());
        assert(distinct_colors(s.take(0)) =~= Seq::<u32>::empty());
    }
    while i < n
        invariant
            len == d.len(),
            d == image.data@,
            n == len / 4,
            s == pixel_colors(d),
            i <= n,
            index_matches(s.take(i as int), color_to_index@),
            palette@.len() == distinct_colors(s.take(i as int)).len(),
            palette@.len() <= 256,
            forall|k: int| 0 <= k < palette@.len() ==> #[trigger] palette@[k]@ == color_bytes(distinct_colors(s.take(i as int))[k]),
            indices@.len() == i,
            forall|j: int| 0 <= j < i ==> distinct_colors(s.take(i as int))[#[trigger] indices@[j] as int] == s[j] && indices@[j] < palette@.len(),
        decreases n - i,
    {
        let ghost t = s.take(i as int);
        let ghost dist = distinct_colors(t);
        assert(4 * i + 3 < len);
        let base = 4 * i;
        let color = crate::palette::pack_rgba(&image.data[base..base + 4]);
        proof {
            assert(color == s[i as int]);
            assert(s.take(i + 1) == t.push(color));
        }
        let index: u8;
        match color_to_index.get(&color) {
            Some(found) => {
                index = *found as u8;
                proof {
                    crate::palette::lemma_index_step_known(t, color, color_to_index@);
                }
            },
            None => {
                proof {
                    crate::palette::lemma_index_step_new(t, color, color_to_index@);
                }
                if palette.len() >= 256 {
                    proof {
                        crate::palette::lemma_distinct_props(t);
                        crate::palette::lemma_distinct_grows(s, i as int);
                    }
                    return None;
                }
                let slot = palette.len();
                color_to_index.insert(color, slot);
                palette.push([image.data[base], image.data[base + 1], image.data[base + 2], image.data[base + 3]]);
                index = slot as u8;
                proof {
                    lemma_color_bytes(d[4 * i], d[4 * i + 1], d[4 * i + 2], d[4 * i + 3]);
                    assert(palette@[slot as int]@ =~= seq![d[4 * i], d[4 * i + 1], d[4 * i + 2], d[4 * i + 3]]);
                }
            },
        }
        indices.push(index);
        i = i + 1;
    }
    proof {
        assert(s.take(n as int) == s);
        assert(palette@.map_values(|e: [u8; 4]| e@) =~= exact_palette_entries(d));
        crate::palette::lemma_distinct_props(s);
        assert forall|j: int| 0 <= j < n implies indices@[j] == exact_palette_indices(d)[j] by {
            let dist = distinct_colors(s);
            assert(dist.contains(s[j]));
            let k = dist.index_of(s[j]);
            assert(dist[k] == s[j]);
            assert(dist[indices@[j] as int] == s[j]);
        }
        assert(indices@ =~= exact_palette_indices(d));
    }
    Some((palette, indices))
}

// ---------------------------------------------------------------------------
// PNG headers.

/// The eight bytes every PNG file starts with.
pub open spec fn png_signature() -> Seq<u8> {
    seq![137u8, 80, 78, 71, 13, 10, 26, 10]
}

/// Big-endian 32-bit number at byte `at`.
pub open spec fn be_u32_at(b: Seq<u8>, at: int) -> int {
    b[at] * 16777216 + b[at + 1] * 65536 + b[at + 2] * 256 + b[at + 3]
}

/// Width and height of a PNG whose signature is directly followed by its
/// `IHDR` chunk, or `None` when the bytes do not start that way.
pub open spec fn png_header_dims(b: Seq<u8>) -> Option<(int, int)> {
    if b.len() >= 24 && b.take(8) == png_signature() && b.subrange(8, 16) == seq![0u8, 0, 0, 13, 73, 72, 68, 82] {
        Some((be_u32_at(b, 16), be_u32_at(b, 20)))
    } else {
        None
    }
}

/// Start of an 8-bit indexed PNG of the given size: `IHDR` with bit depth 8,
/// color type 3 (indexed) and no interlacing, directly followed by a `PLTE`
/// chunk holding `palette_rgb`.
pub open spec fn indexed_png_header(b: Seq<u8>, width: u32, height: u32, palette_rgb: Seq<u8>) -> bool {
    &&& png_header_dims(b) == Some((width as int, height as int))
    &&& b.len() >= 41 + palette_rgb.len()
    &&& b[24] == 8 && b[25] == 3 && b[28] == 0
    &&& be_u32_at(b, 33) == palette_rgb.len()
    &&& b.subrange(37, 41) == seq![80u8, 76, 84, 69]
    &&& b.subrange(41, 41 + palette_rgb.len() as int) == palette_rgb
}

// ---------------------------------------------------------------------------
// Trusted calls into the PNG encoders.

/// Bytes of the PNG that `image`'s `PngEncoder` writes for RGBA8 pixels.
pub uninterp spec fn png_rgba_bytes(width: u32, height: u32, rgba: Seq<u8>) -> Option<Seq<u8>>;

/// Bytes that `oxipng::optimize_from_memory` produces with the given preset.
pub uninterp spec fn oxipng_optimized(png: Seq<u8>, preset: u8) -> Option<Seq<u8>>;

/// Bytes of an 8-bit indexed PNG written by the `png` crate without a
/// transparency chunk.
pub uninterp spec fn indexed_png_bytes(width: u32, height: u32, palette_rgb: Seq<u8>, indices: Seq<u8>) -> Option<Seq<u8>>;

/// Bytes of an 8-bit indexed PNG written by the `png` crate with a `tRNS`
/// chunk holding one alpha value per palette entry.
pub uninterp spec fn indexed_png_bytes_with_alpha(
    width: u32,
    height: u32,
    palette_rgb: Seq<u8>,
    palette_alpha: Seq<u8>,
    indices: Seq<u8>,
) -> Option<Seq<u8>>;

/// Palette (flat RGBA, four bytes per entry), one palette index per pixel
/// and the remapping quality that imagequant produces for RGBA pixels with
/// the given quality range, speed, gamma and dithering level, or `None`
/// when imagequant reports an error.
pub uninterp spec fn imagequant_remapped(
    width: u32,
    height: u32,
    rgba: Seq<u8>,
    min_quality: u8,
    target_quality: u8,
    speed: i32,
    gamma: u8,
    dithering: u8,
) -> Option<(Seq<u8>, Seq<u8>, Option<u8>)>;

/// The shape imagequant's remapping has: a palette of at most 256 RGBA
/// entries and one in-range index per pixel.
pub open spec fn remap_is_indexed(width: u32, height: u32, flat: Seq<u8>, indices: Seq<u8>) -> bool {
    &&& flat.len() % 4 == 0
    &&& flat.len() <= 1024
    &&& indices.len() == width * height
    &&& forall|i: int| 0 <= i < indices.len() ==> 4 * (#[trigger] indices[i]) < flat.len()
}

/// Text of the error imagequant reports (with the step that failed).
pub uninterp spec fn imagequant_error(
    width: u32,
    height: u32,
    rgba: Seq<u8>,
    min_quality: u8,
    target_quality: u8,
    speed: i32,
    gamma: u8,
    dithering: u8,
) -> Seq<char>;

/// Text of the error the `image` crate's PNG encoder reports.
pub uninterp spec fn png_rgba_error(width: u32, height: u32, rgba: Seq<u8>) -> Seq<char>;

/// Text of the error OxiPNG reports.
pub uninterp spec fn oxipng_error(png: Seq<u8>, preset: u8) -> Seq<char>;

/// Text of the error the `png` crate reports for an indexed image (with the
/// step that failed).
pub uninterp spec fn indexed_png_error(width: u32, height: u32, palette_rgb: Seq<u8>, indices: Seq<u8>) -> Seq<char>;

/// Text of the error the `png` crate reports for an indexed image with a
/// `tRNS` chunk (with the step that failed).
pub uninterp spec fn indexed_png_error_with_alpha(
    width: u32,
    height: u32,
    palette_rgb: Seq<u8>,
    palette_alpha: Seq<u8>,
    indices: Seq<u8>,
) -> Seq<char>;

/// Quantize RGBA pixels with imagequant: `imagequant::new`,
/// `Attributes::set_quality`, `set_speed`, `new_image` (gamma 0 is sRGB),
/// `quantize`, `QuantizationResult::set_dithering_level`, `remapped` and
/// `remapping_quality`.
///
/// Trusted: the outcome is a function of the arguments (imagequant is
/// deterministic and runs single-threaded without its `threads` feature);
/// every failure is reported through imagequant's `Result`s. The palette
/// holds at most 256 colors, and `remapped` writes one index per pixel,
/// each naming an entry of that palette.
#[verifier::external_body]
fn imagequant_remap(
    rgba: &[u8],
    width: u32,
    height: u32,
    min_quality: u8,
    target_quality: u8,
    speed: i32,
    gamma: u8,
    dithering: u8,
) -> (r: core::result::Result<(Vec<u8>, Vec<u8>, Option<u8>), String>)
    requires
        rgba@.len() == width * height * 4,
    ensures
        match r {
            Ok((palette, indices, quality)) => {
                &&& imagequant_remapped(width, height, rgba@, min_quality, target_quality, speed, gamma, dithering)
                    == Some((palette@, indices@, quality))
                &&& remap_is_indexed(width, height, palette@, indices@)
            },
            Err(m) => imagequant_remapped(width, height, rgba@, min_quality, target_quality, speed, gamma, dithering) is None && m@
                == imagequant_error(width, height, rgba@, min_quality, target_quality, speed, gamma, dithering),
        },
{
    let mut attr = imagequant::new();
    attr.set_quality(min_quality, target_quality).map_err(|e| format!("imagequant quality: {e:?}"))?;
    attr.set_speed(speed).map_err(|e| format!("imagequant speed: {e:?}"))?;
    let mut image = attr.new_image(rgba.as_rgba(), width as usize, height as usize, gamma.into()).map_err(|e| format!("imagequant image: {e:?}"))?;
    let mut result = attr.quantize(&mut image).map_err(|e| format!("imagequant quantize: {e:?}"))?;
    result.set_dithering_level(dithering.into()).map_err(|e| format!("imagequant dither: {e:?}"))?;
    let (palette, indices) = result.remapped(&mut image).map_err(|e| format!("imagequant remap: {e:?}"))?;
    Ok((palette.as_bytes().to_vec(), indices, result.remapping_quality()))
}

/// Write RGBA8 pixels as a plain PNG with `image::codecs::png::PngEncoder`.
///
/// Trusted: the bytes are a function of the dimensions and pixels;
/// `write_image` panics when the buffer length is not `width * height * 4`,
/// which `requires` excludes. PNG is lossless: the `image` crate's PNG
/// decoder reads the written file back as the same RGBA8 pixels, as long
/// as they fit its default allocation limit.
#[verifier::external_body]
fn write_rgba_png(width: u32, height: u32, rgba: &[u8]) -> (r: core::result::Result<Vec<u8>, String>)
    requires
        rgba@.len() == width * height * 4,
    ensures
        match r {
            Ok(bytes) => png_rgba_bytes(width, height, rgba@) == Some(bytes@) && (width * height * 4 <= IMAGE_DECODE_LIMIT
                ==> image_crate_decoded(bytes@, Format::Png) == Some((width, height, rgba@))),
            Err(m) => png_rgba_bytes(width, height, rgba@) is None && m@ == png_rgba_error(width, height, rgba@),
        },
{
    let mut raw = Cursor::new(Vec::new());
    match image::codecs::png::PngEncoder::new(&mut raw).write_image(rgba, width, height, image::ExtendedColorType::Rgba8) {
        Ok(()) => Ok(raw.into_inner()),
        Err(e) => Err(format!("{e}")),
    }
}

/// Recompress a PNG with `oxipng::optimize_from_memory` using
/// `oxipng::Options::from_preset(preset)`.
///
/// Trusted: the output is a function of the input bytes and the preset.
/// OxiPNG is a lossless optimizer (its presets leave `optimize_alpha`
/// off): a PNG the `image` crate decodes decodes to the same pixels after
/// optimization. Its output starts with the signature and an `IHDR` chunk
/// carrying the input's width and height (or is the input itself).
#[verifier::external_body]
fn oxipng_optimize(png: &[u8], preset: u8) -> (r: core::result::Result<Vec<u8>, String>)
    ensures
        match r {
            Ok(bytes) => oxipng_optimized(png@, preset) == Some(bytes@) && (image_crate_decoded(png@, Format::Png) is Some
                ==> image_crate_decoded(bytes@, Format::Png) == image_crate_decoded(png@, Format::Png)) && (png_header_dims(png@) is Some
                ==> png_header_dims(bytes@) == png_header_dims(png@)),
            Err(m) => oxipng_optimized(png@, preset) is None && m@ == oxipng_error(png@, preset),
        },
{
    let options = oxipng::Options::from_preset(preset);
    oxipng::optimize_from_memory(png, &options).map_err(|e| format!("{e}"))
}

/// RGBA pixels an indexed PNG decodes to: each index picks an RGB triple
/// of `palette_rgb`, and its alpha from `palette_alpha` (the `tRNS` chunk)
/// or 255 without one.
pub open spec fn indexed_pixels(palette_rgb: Seq<u8>, palette_alpha: Option<Seq<u8>>, indices: Seq<u8>) -> Seq<u8> {
    Seq::new(
        indices.len() * 4,
        |j: int|
            {
                let k = indices[j / 4] as int;
                if j % 4 < 3 {
                    palette_rgb[3 * k + j % 4]
                } else {
                    match palette_alpha {
                        Some(alpha) => alpha[k],
                        None => 255u8,
                    }
                }
            },
    )
}

/// An indexed image the `image` crate decodes without refusing it: nonzero
/// sides, decoded pixels of `bytes_per_pixel` bytes (3 for RGB without a
/// `tRNS` chunk, 4 for RGBA with one) within its allocation limit, a
/// palette of 1 to 256 colors, and one in-range index per pixel.
pub open spec fn indexed_image_decodable(width: u32, height: u32, palette_len: nat, indices: Seq<u8>, bytes_per_pixel: int) -> bool {
    &&& 1 <= width && 1 <= height
    &&& width * height * bytes_per_pixel <= IMAGE_DECODE_LIMIT
    &&& 1 <= palette_len <= 256
    &&& indices.len() == width * height
    &&& forall|i: int| 0 <= i < indices.len() ==> (#[trigger] indices[i]) < palette_len
}

/// RGBA pixels given by palette entries and one index per pixel.
pub open spec fn entry_pixels(entries: Seq<Seq<u8>>, indices: Seq<u8>) -> Seq<u8> {
    Seq::new(indices.len() * 4, |j: int| entries[indices[j / 4] as int][j % 4])
}

/// Write an 8-bit indexed PNG with the `png` crate (no `tRNS` chunk).
///
/// Trusted: the bytes are a function of the arguments; errors (such as a
/// wrong number of indices) are reported, not raised. The file starts with
/// the signature, the `IHDR` chunk and the `PLTE` chunk. The `image` crate
/// decodes the file (expanding the palette) to each index's RGB color with
/// alpha 255, for an image within its allocation limit.
#[verifier::external_body]
fn write_indexed_png(width: u32, height: u32, palette_rgb: &[u8], indices: &[u8]) -> (r: core::result::Result<Vec<u8>, String>)
    ensures
        match r {
            Ok(bytes) => indexed_png_bytes(width, height, palette_rgb@, indices@) == Some(bytes@) && (palette_rgb@.len() <= u32::MAX
                ==> indexed_png_header(bytes@, width, height, palette_rgb@)) && (palette_rgb@.len() % 3 == 0
                && indexed_image_decodable(width, height, palette_rgb@.len() / 3, indices@, 3) ==> image_crate_decoded(bytes@, Format::Png)
                == Some((width, height, indexed_pixels(palette_rgb@, None, indices@)))),
            Err(m) => indexed_png_bytes(width, height, palette_rgb@, indices@) is None && m@ == indexed_png_error(width, height, palette_rgb@, indices@),
        },
{
    let mut bytes = Vec::new();
    let mut encoder = png::Encoder::new(&mut bytes, width, height);
    encoder.set_color(png::ColorType::Indexed);
    encoder.set_depth(png::BitDepth::Eight);
    encoder.set_palette(palette_rgb.to_vec());
    let mut writer = encoder.write_header().map_err(|e| format!("png indexed header: {e}"))?;
    writer.write_image_data(indices).map_err(|e| format!("png indexed data: {e}"))?;
    drop(writer);
    Ok(bytes)
}

/// Write an 8-bit indexed PNG with the `png` crate, with a `tRNS` chunk.
///
/// Trusted: the bytes are a function of the arguments; errors are
/// reported, not raised. The file starts with the signature, the `IHDR`
/// chunk and the `PLTE` chunk. The `image` crate decodes the file
/// (expanding the palette and the `tRNS` alphas) to each index's RGB color
/// and alpha, for an image within its allocation limit.
#[verifier::external_body]
fn write_indexed_png_with_alpha(
    width: u32,
    height: u32,
    palette_rgb: &[u8],
    palette_alpha: &[u8],
    indices: &[u8],
) -> (r: core::result::Result<Vec<u8>, String>)
    ensures
        match r {
            Ok(bytes) => indexed_png_bytes_with_alpha(width, height, palette_rgb@, palette_alpha@, indices@) == Some(bytes@) && (
            palette_rgb@.len() <= u32::MAX ==> indexed_png_header(bytes@, width, height, palette_rgb@)) && (
            palette_rgb@.len() % 3 == 0 && palette_alpha@.len() == palette_rgb@.len() / 3 && indexed_image_decodable(
                width,
                height,
                palette_rgb@.len() / 3,
                indices@,
                4,
            ) ==> image_crate_decoded(bytes@, Format::Png) == Some((width, height, indexed_pixels(palette_rgb@, Some(palette_alpha@), indices@)))),
            Err(m) => indexed_png_bytes_with_alpha(width, height, palette_rgb@, palette_alpha@, indices@) is None && m@
                == indexed_png_error_with_alpha(width, height, palette_rgb@, palette_alpha@, indices@),
        },
{
    let mut bytes = Vec::new();
    let mut encoder = png::Encoder::new(&mut bytes, width, height);
    encoder.set_color(png::ColorType::Indexed);
    encoder.set_depth(png::BitDepth::Eight);
    encoder.set_palette(palette_rgb.to_vec());
    encoder.set_trns(palette_alpha.to_vec());
    let mut writer = encoder.write_header().map_err(|e| format!("png indexed header: {e}"))?;
    writer.write_image_data(indices).map_err(|e| format!("png indexed data: {e}"))?;
    drop(writer);
    Ok(bytes)
}

/// An encoded palette PNG together with how faithful it is.
pub struct PalettePngOutput {
    pub data: Vec<u8>,
    pub lossless: bool,
    pub remapping_quality: Option<u8>,
}

/// The plain view of a palette PNG outcome.
pub open spec fn palette_view(p: PalettePngOutput) -> (Seq<u8>, bool, Option<u8>) {
    (p.data@, p.lossless, p.remapping_quality)
}

/// The plain view of a palette encoding result (`None` for an error).
pub open spec fn palette_result_view(r: Result<PalettePngOutput>) -> Option<(Seq<u8>, bool, Option<u8>)> {
    match r {
        Ok(p) => Some(palette_view(p)),
        Err(_) => None,
    }
}

/// OxiPNG preset used for the given options: effort decides when given,
/// otherwise quality.
pub open spec fn png_preset(options: EncodeOptions) -> int {
    match options.effort {
        Some(e) => spec_effort_preset(e),
        None => spec_quality_preset(options.quality),
    }
}

/// Optimize `raw` with the preset of `options`.
pub open spec fn optimized_with(raw: Option<Seq<u8>>, options: EncodeOptions) -> Option<Seq<u8>> {
    match raw {
        Some(bytes) => oxipng_optimized(bytes, png_preset(options) as u8),
        None => None,
    }
}

/// RGB bytes of palette entries, three per entry.
pub open spec fn palette_rgb(entries: Seq<Seq<u8>>) -> Seq<u8>
    decreases entries.len(),
{
    if entries.len() == 0 {
        Seq::empty()
    } else {
        palette_rgb(entries.drop_last()) + entries.last().take(3)
    }
}

/// Alpha byte of each palette entry.
pub open spec fn palette_alpha(entries: Seq<Seq<u8>>) -> Seq<u8> {
    entries.map_values(|e: Seq<u8>| e[3])
}

/// Whether some palette entry is not fully opaque.
pub open spec fn palette_has_transparency(entries: Seq<Seq<u8>>) -> bool {
    exists|k: int| 0 <= k < entries.len() && #[trigger] entries[k][3] < 255
}

/// Bytes of the indexed PNG written for a palette and indices: a `tRNS`
/// chunk is written exactly when some entry is not fully opaque.
pub open spec fn indexed_png_of(width: u32, height: u32, entries: Seq<Seq<u8>>, indices: Seq<u8>) -> Option<Seq<u8>> {
    if palette_has_transparency(entries) {
        indexed_png_bytes_with_alpha(width, height, palette_rgb(entries), palette_alpha(entries), indices)
    } else {
        indexed_png_bytes(width, height, palette_rgb(entries), indices)
    }
}

/// Lossless RGBA PNG for the given pixels.
pub open spec fn rgba_png_of(width: u32, height: u32, rgba: Seq<u8>, options: EncodeOptions) -> Option<Seq<u8>> {
    optimized_with(png_rgba_bytes(width, height, rgba), options)
}

/// Palette PNG built from the exact palette.
pub open spec fn exact_palette_png_of(width: u32, height: u32, rgba: Seq<u8>, options: EncodeOptions) -> Option<Seq<u8>> {
    optimized_with(indexed_png_of(width, height, exact_palette_entries(rgba), exact_palette_indices(rgba)), options)
}

/// Palette entries of flat RGBA palette bytes (a trailing partial entry is dropped).
pub open spec fn flat_entries(flat: Seq<u8>) -> Seq<Seq<u8>> {
    Seq::new(flat.len() / 4, |k: int| flat.subrange(4 * k, 4 * k + 4))
}

/// Palette PNG built from imagequant's palette (quality 85..=95, sRGB, full
/// dithering, speed from the effort): never lossless, carrying imagequant's
/// remapping quality.
pub open spec fn quantized_palette_png_of(width: u32, height: u32, rgba: Seq<u8>, options: EncodeOptions) -> Option<(Seq<u8>, bool, Option<u8>)> {
    match imagequant_remapped(width, height, rgba, 85, 95, spec_imagequant_speed(options.effort) as i32, 0, 1) {
        None => None,
        Some((flat, indices, quality)) => match optimized_with(indexed_png_of(width, height, flat_entries(flat), indices), options) {
            Some(bytes) => Some((bytes, false, quality)),
            None => None,
        },
    }
}

/// Palette PNG for the image: the exact palette when it has at most 256
/// colors (lossless, quality 100), otherwise imagequant's.
pub open spec fn palette_png_result(width: u32, height: u32, rgba: Seq<u8>, options: EncodeOptions) -> Option<(Seq<u8>, bool, Option<u8>)> {
    if fits_exact_palette(rgba) {
        match exact_palette_png_of(width, height, rgba, options) {
            Some(bytes) => Some((bytes, true, Some(100u8))),
            None => None,
        }
    } else {
        quantized_palette_png_of(width, height, rgba, options)
    }
}

/// Auto mode keeps a palette PNG only when it is lossless and smaller, or
/// lossy with remapping quality at least 90 and at most 95% of the size.
pub open spec fn prefer_palette(rgba_len: int, palette: (Seq<u8>, bool, Option<u8>)) -> bool {
    if palette.1 {
        palette.0.len() < rgba_len
    } else {
        (palette.2 matches Some(q) && q >= 90) && palette.0.len() * 100 <= rgba_len * 95
    }
}

/// Whether the palette analysis lets Auto mode try a palette.
pub open spec fn palette_candidate(rgba: Seq<u8>) -> bool {
    palette_stats_of(rgba).recommendation != PaletteRecommendation::Off
}

/// Possible outcomes of PNG encoding.
pub open spec fn png_encode_outcome(width: u32, height: u32, rgba: Seq<u8>, options: EncodeOptions, out: Option<Seq<u8>>) -> bool {
    match options.png_palette {
        PngPaletteMode::Off => {
            &&& out == rgba_png_of(width, height, rgba, options)
            &&& out matches Some(bytes) ==> (width * height * 4 <= IMAGE_DECODE_LIMIT ==> image_crate_decoded(bytes, Format::Png) == Some(
                (width, height, rgba),
            ))
        },
        PngPaletteMode::On => {
            &&& out == match palette_png_result(width, height, rgba, options) {
                Some(v) => Some(v.0),
                None => None,
            }
            &&& out matches Some(bytes) ==> palette_png_decodes(width, height, rgba, options, bytes)
        },
        PngPaletteMode::Auto => match rgba_png_of(width, height, rgba, options) {
            None => out is None,
            Some(plain) => if !palette_candidate(rgba) {
                out == Some(plain)
            } else {
                out == match palette_png_result(width, height, rgba, options) {
                    Some(v) => if prefer_palette(plain.len() as int, v) {
                        Some(v.0)
                    } else {
                        Some(plain)
                    },
                    None => Some(plain),
                }
            },
        },
    }
}

/// OxiPNG preset chosen from the quality when no effort is given: higher
/// quality requests favour speed (preset 1), low quality favours size.
pub open spec fn spec_quality_preset(quality: u8) -> int {
    if 90 <= quality <= 100 {
        1
    } else if 70 <= quality <= 89 {
        2
    } else if 50 <= quality <= 69 {
        3
    } else if 30 <= quality <= 49 {
        4
    } else {
        6
    }
}

/// OxiPNG preset for an effort value: effort 0 is preset 0, effort 50 is
/// preset 2 (oxipng's default) and effort 100 is preset 6.
pub open spec fn spec_effort_preset(effort: u8) -> int {
    let e = clamped_effort(effort);
    if e <= 50 {
        (e * 2 + 25) / 50
    } else {
        2 + ((e - 50) * 4 + 25) / 50
    }
}

/// imagequant speed for an optional effort (absent effort counts as 50):
/// effort 0 is speed 10 (fastest) and effort 100 is speed 1.
pub open spec fn spec_imagequant_speed(effort: Option<u8>) -> int {
    let e = match effort {
        Some(v) => clamped_effort(v),
        None => 50,
    };
    let s = 10 - (e * 9 + 50) / 100;
    if s < 1 {
        1
    } else if s > 10 {
        10
    } else {
        s
    }
}

/// Map an encoding quality onto an OxiPNG preset.
pub fn quality_to_oxipng_preset(quality: u8) -> (r: u8)
    ensures
        r == spec_quality_preset(quality),
{
    if 90 <= quality && quality <= 100 {
        1
    } else if 70 <= quality && quality <= 89 {
        2
    } else if 50 <= quality && quality <= 69 {
        3
    } else if 30 <= quality && quality <= 49 {
        4
    } else {
        6
    }
}

/// Map an effort value (0..=100) onto an OxiPNG preset (0..=6).
pub fn effort_to_oxipng_preset(effort: u8) -> (r: u8)
    ensures
        r == spec_effort_preset(effort),
{
    let effort: u16 = if effort > 100 { 100 } else { effort as u16 };
    if effort <= 50 {
        ((effort * 2 + 25) / 50) as u8
    } else {
        (2 + ((effort - 50) * 4 + 25) / 50) as u8
    }
}

/// Map an optional effort value onto imagequant's speed scale (10..=1).
pub fn effort_to_imagequant_speed(effort: Option<u8>) -> (r: i32)
    ensures
        r == spec_imagequant_speed(effort),
{
    let e: u16 = match effort {
        Some(v) => if v > 100 { 100 } else { v as u16 },
        None => 50,
    };
    let s: i32 = 10 - ((e * 9 + 50) / 100) as i32;
    if s < 1 {
        1
    } else if s > 10 {
        10
    } else {
        s
    }
}

fn png_encode_error(context: &str, message: String) -> (r: Error)
    ensures
        r matches Error::Encode(m) && m@ == context@ + message@,
{
    Error::Encode(String::from_str(context).concat(message.as_str()))
}

/// Text of OxiPNG's error for `raw` with the preset of `options`.
pub open spec fn optimize_error(raw: Seq<u8>, options: EncodeOptions) -> Seq<char> {
    "oxipng optimize: "@ + oxipng_error(raw, png_preset(options) as u8)
}

/// Text of the error of a plain RGBA PNG encode.
pub open spec fn rgba_png_error(width: u32, height: u32, rgba: Seq<u8>, options: EncodeOptions) -> Seq<char> {
    match png_rgba_bytes(width, height, rgba) {
        None => "png raw encode: "@ + png_rgba_error(width, height, rgba),
        Some(raw) => optimize_error(raw, options),
    }
}

/// Text of the error of writing an indexed PNG of palette entries.
pub open spec fn indexed_png_error_of(width: u32, height: u32, entries: Seq<Seq<u8>>, indices: Seq<u8>) -> Seq<char> {
    if palette_has_transparency(entries) {
        indexed_png_error_with_alpha(width, height, palette_rgb(entries), palette_alpha(entries), indices)
    } else {
        indexed_png_error(width, height, palette_rgb(entries), indices)
    }
}

/// Text of the error of writing and then optimizing an indexed PNG.
pub open spec fn palette_png_error_of(width: u32, height: u32, entries: Seq<Seq<u8>>, indices: Seq<u8>, options: EncodeOptions) -> Seq<char> {
    match indexed_png_of(width, height, entries, indices) {
        None => indexed_png_error_of(width, height, entries, indices),
        Some(raw) => optimize_error(raw, options),
    }
}

/// Text of the error of a quantized palette PNG.
pub open spec fn quantized_png_error(width: u32, height: u32, rgba: Seq<u8>, options: EncodeOptions) -> Seq<char> {
    let speed = spec_imagequant_speed(options.effort) as i32;
    match imagequant_remapped(width, height, rgba, 85, 95, speed, 0, 1) {
        None => imagequant_error(width, height, rgba, 85, 95, speed, 0, 1),
        Some((flat, indices, _)) => palette_png_error_of(width, height, flat_entries(flat), indices, options),
    }
}

/// Text of the error of a palette PNG.
pub open spec fn palette_png_error(width: u32, height: u32, rgba: Seq<u8>, options: EncodeOptions) -> Seq<char> {
    if fits_exact_palette(rgba) {
        palette_png_error_of(width, height, exact_palette_entries(rgba), exact_palette_indices(rgba), options)
    } else {
        quantized_png_error(width, height, rgba, options)
    }
}

/// Text of the PNG codec's encode errors: palette output reports the
/// palette path's error; otherwise (Auto mode falls back to the plain PNG
/// when the palette path fails) the plain PNG's error.
pub open spec fn png_encode_error_text(width: u32, height: u32, rgba: Seq<u8>, options: EncodeOptions) -> Seq<char> {
    match options.png_palette {
        PngPaletteMode::On => palette_png_error(width, height, rgba, options),
        _ => rgba_png_error(width, height, rgba, options),
    }
}

/// Recompress PNG bytes with the OxiPNG preset chosen by the options.
fn optimize_png(raw_bytes: Vec<u8>, options: &EncodeOptions) -> (r: Result<Vec<u8>>)
    ensures
        match r {
            Ok(bytes) => optimized_with(Some(raw_bytes@), *options) == Some(bytes@) && (image_crate_decoded(raw_bytes@, Format::Png) is Some
                ==> image_crate_decoded(bytes@, Format::Png) == image_crate_decoded(raw_bytes@, Format::Png)) && (png_header_dims(raw_bytes@) is Some
                ==> png_header_dims(bytes@) == png_header_dims(raw_bytes@)),
            Err(e) => optimized_with(Some(raw_bytes@), *options) is None && (e matches Error::Encode(m) && m@ == optimize_error(
                raw_bytes@,
                *options,
            )),
        },
{
    let preset = match options.effort {
        Some(effort) => effort_to_oxipng_preset(effort),
        None => quality_to_oxipng_preset(options.quality),
    };
    match oxipng_optimize(raw_bytes.as_slice(), preset) {
        Ok(bytes) => Ok(bytes),
        Err(message) => Err(png_encode_error("oxipng optimize: ", message)),
    }
}

/// Encode RGBA pixels as a plain PNG, then recompress it.
fn encode_rgba_png(image: &ImageData, options: &EncodeOptions) -> (r: Result<Vec<u8>>)
    requires
        image.well_formed(),
    ensures
        match r {
            Ok(bytes) => rgba_png_of(image.width, image.height, image.data@, *options) == Some(bytes@) && (image.width * image.height * 4
                <= IMAGE_DECODE_LIMIT ==> image_crate_decoded(bytes@, Format::Png) == Some((image.width, image.height, image.data@))),
            Err(e) => rgba_png_of(image.width, image.height, image.data@, *options) is None && (e matches Error::Encode(m) && m@
                == rgba_png_error(image.width, image.height, image.data@, *options)),
        },
{
    match write_rgba_png(image.width, image.height, image.data.as_slice()) {
        Ok(raw) => optimize_png(raw, options),
        Err(message) => Err(png_encode_error("png raw encode: ", message)),
    }
}

proof fn lemma_palette_rgb_len(entries: Seq<Seq<u8>>)
    requires
        forall|j: int| 0 <= j < entries.len() ==> (#[trigger] entries[j]).len() == 4,
    ensures
        palette_rgb(entries).len() == 3 * entries.len(),
    decreases entries.len(),
{
    if entries.len() > 0 {
        lemma_palette_rgb_len(entries.drop_last());
    }
}

proof fn lemma_palette_rgb_index(entries: Seq<Seq<u8>>, k: int, c: int)
    requires
        0 <= k < entries.len(),
        0 <= c < 3,
        forall|j: int| 0 <= j < entries.len() ==> (#[trigger] entries[j]).len() == 4,
    ensures
        palette_rgb(entries)[3 * k + c] == entries[k][c],
    decreases entries.len(),
{
    let init = entries.drop_last();
    lemma_palette_rgb_len(init);
    if k < entries.len() - 1 {
        lemma_palette_rgb_index(init, k, c);
    }
}

/// The pixels an indexed PNG of `entries` decodes to are the entries'
/// colors, with or without a `tRNS` chunk (without one only when every
/// entry is opaque).
proof fn lemma_indexed_pixels_are_entries(entries: Seq<Seq<u8>>, indices: Seq<u8>, with_alpha: bool)
    requires
        forall|j: int| 0 <= j < entries.len() ==> (#[trigger] entries[j]).len() == 4,
        forall|i: int| 0 <= i < indices.len() ==> (#[trigger] indices[i]) < entries.len(),
        !with_alpha ==> !palette_has_transparency(entries),
    ensures
        indexed_pixels(palette_rgb(entries), if with_alpha {
            Some(palette_alpha(entries))
        } else {
            None
        }, indices) == entry_pixels(entries, indices),
{
    let alpha = if with_alpha {
        Some(palette_alpha(entries))
    } else {
        None
    };
    let a = indexed_pixels(palette_rgb(entries), alpha, indices);
    let b = entry_pixels(entries, indices);
    assert forall|j: int| 0 <= j < a.len() implies a[j] == b[j] by {
        let i = j / 4;
        let k = indices[i] as int;
        assert(0 <= i < indices.len());
        assert(k < entries.len());
        if j % 4 < 3 {
            lemma_palette_rgb_index(entries, k, j % 4);
        } else if !with_alpha {
            assert(!(entries[k][3] < 255));
        }
    }
    assert(a =~= b);
}

/// Write an 8-bit indexed PNG; a `tRNS` chunk is added when some palette
/// entry is not fully opaque.
pub fn encode_indexed_png(width: u32, height: u32, palette: &[[u8; 4]], indices: &[u8]) -> (r: Result<Vec<u8>>)
    ensures
        match r {
            Ok(bytes) => indexed_png_of(width, height, palette@.map_values(|e: [u8; 4]| e@), indices@) == Some(bytes@) && (palette@.len()
                <= 256 ==> indexed_png_header(bytes@, width, height, palette_rgb(palette@.map_values(|e: [u8; 4]| e@)))) && (
            indexed_image_decodable(width, height, palette@.len(), indices@, palette_decode_bytes(palette@.map_values(|e: [u8; 4]| e@)))
                ==> image_crate_decoded(bytes@, Format::Png) == Some(
                (width, height, entry_pixels(palette@.map_values(|e: [u8; 4]| e@), indices@)),
            )),
            Err(e) => indexed_png_of(width, height, palette@.map_values(|e: [u8; 4]| e@), indices@) is None && (e matches Error::Encode(m)
                && m@ == indexed_png_error_of(width, height, palette@.map_values(|e: [u8; 4]| e@), indices@)),
        },
{
    let ghost entries = palette@.map_values(|e: [u8; 4]| e@);
    let mut rgb: Vec<u8> = Vec::new();
    let mut alpha: Vec<u8> = Vec::new();
    let mut transparent = false;
    let mut k: usize = 0;
    while k < palette.len()
        invariant
            k <= palette@.len(),
            entries == palette@.map_values(|e: [u8; 4]| e@),
            rgb@ == palette_rgb(entries.take(k as int)),
            alpha@ == palette_alpha(entries.take(k as int)),
            transparent == palette_has_transparency(entries.take(k as int)),
        decreases palette@.len() - k,
    {
        let entry = palette[k];
        proof {
            assert(entries.take(k + 1).drop_last() == entries.take(k as int));
            assert(entries[k as int] == entry@);
        }
        rgb.push(entry[0]);
        rgb.push(entry[1]);
        rgb.push(entry[2]);
        alpha.push(entry[3]);
        proof {
            assert(entry@.take(3) =~= seq![entry[0], entry[1], entry[2]]);
            assert(rgb@ =~= palette_rgb(entries.take(k + 1)));
            assert(alpha@ =~= palette_alpha(entries.take(k + 1)));
            let t = entries.take(k + 1);
            if palette_has_transparency(t) && !(entry[3] < 255) {
                let w = choose|w: int| 0 <= w < t.len() && #[trigger] t[w][3] < 255;
                assert(entries.take(k as int)[w][3] < 255);
            }
            if palette_has_transparency(entries.take(k as int)) {
                let w = choose|w: int| 0 <= w < k && #[trigger] entries.take(k as int)[w][3] < 255;
                assert(t[w][3] < 255);
            }
            if entry[3] < 255 {
                assert(t[k as int][3] < 255);
            }
        }
        transparent = transparent || entry[3] < 255;
        k = k + 1;
    }
    proof {
        assert(entries.take(palette@.len() as int) == entries);
        assert forall|j: int| 0 <= j < entries.len() implies (#[trigger] entries[j]).len() == 4 by {
            assert(entries[j] == palette@[j]@);
        }
        lemma_palette_rgb_len(entries);
        if indexed_image_decodable(width, height, palette@.len(), indices@, palette_decode_bytes(entries)) {
            lemma_indexed_pixels_are_entries(entries, indices@, transparent);
        }
    }
    let written = if transparent {
        write_indexed_png_with_alpha(width, height, rgb.as_slice(), alpha.as_slice(), indices)
    } else {
        write_indexed_png(width, height, rgb.as_slice(), indices)
    };
    match written {
        Ok(bytes) => Ok(bytes),
        Err(message) => Err(Error::Encode(message)),
    }
}

/// Bytes per pixel the `image` crate decodes an indexed PNG of these
/// entries to: RGB without transparency, RGBA with it.
pub open spec fn palette_decode_bytes(entries: Seq<Seq<u8>>) -> int {
    if palette_has_transparency(entries) {
        4
    } else {
        3
    }
}

/// Nonzero sides, and the pixels of an indexed PNG of these entries within
/// the `image` crate's decoding limit.
pub open spec fn palette_image_decodable(width: u32, height: u32, entries: Seq<Seq<u8>>) -> bool {
    1 <= width && 1 <= height && width * height * palette_decode_bytes(entries) <= IMAGE_DECODE_LIMIT
}

/// For an image with at most 256 colors, the exact palette and indices make
/// a decodable indexed image whose pixels are the image's own.
proof fn lemma_exact_palette_pixels(width: u32, height: u32, rgba: Seq<u8>)
    requires
        rgba.len() == width * height * 4,
        fits_exact_palette(rgba),
        palette_image_decodable(width, height, exact_palette_entries(rgba)),
    ensures
        indexed_image_decodable(
            width,
            height,
            exact_palette_entries(rgba).len(),
            exact_palette_indices(rgba),
            palette_decode_bytes(exact_palette_entries(rgba)),
        ),
        entry_pixels(exact_palette_entries(rgba), exact_palette_indices(rgba)) == rgba,
{
    let entries = exact_palette_entries(rgba);
    let indices = exact_palette_indices(rgba);
    let n = rgba.len() / 4;
    assert(n == width * height) by (nonlinear_arith)
        requires
            rgba.len() == width * height * 4,
            n == rgba.len() / 4,
    ;
    assert(n >= 1) by (nonlinear_arith)
        requires
            n == width * height,
            width >= 1,
            height >= 1,
    ;
    assert forall|i: int| 0 <= i < indices.len() implies (#[trigger] indices[i]) < entries.len() by {
        exact_palette_reproduces_pixels(rgba, i);
    }
    exact_palette_reproduces_pixels(rgba, 0);
    let b = entry_pixels(entries, indices);
    assert forall|j: int| 0 <= j < rgba.len() implies b[j] == rgba[j] by {
        let i = j / 4;
        exact_palette_reproduces_pixels(rgba, i);
        assert(entries[indices[i] as int] == rgba.subrange(4 * i, 4 * i + 4));
        assert(rgba.subrange(4 * i, 4 * i + 4)[j % 4] == rgba[4 * i + j % 4]);
    }
    assert(b =~= rgba);
}

/// Palette PNG from the exact palette, or `None` beyond 256 colors.
fn encode_exact_palette_png(image: &ImageData, options: &EncodeOptions) -> (r: Result<Option<PalettePngOutput>>)
    requires
        image.well_formed(),
    ensures
        match r {
            Ok(Some(out)) => {
                &&& fits_exact_palette(image.data@)
                &&& exact_palette_png_of(image.width, image.height, image.data@, *options) == Some(out.data@)
                &&& out.lossless
                &&& out.remapping_quality == Some(100u8)
                &&& indexed_png_of(image.width, image.height, exact_palette_entries(image.data@), exact_palette_indices(image.data@))
                    matches Some(raw) && indexed_png_header(raw, image.width, image.height, palette_rgb(exact_palette_entries(image.data@)))
                &&& png_header_dims(out.data@) == Some((image.width as int, image.height as int))
                &&& palette_image_decodable(image.width, image.height, exact_palette_entries(image.data@)) ==> image_crate_decoded(
                    out.data@,
                    Format::Png,
                ) == Some(
                    (image.width, image.height, image.data@),
                )
            },
            Ok(None) => !fits_exact_palette(image.data@),
            Err(e) => fits_exact_palette(image.data@) && exact_palette_png_of(image.width, image.height, image.data@, *options) is None
                && (e matches Error::Encode(m) && m@ == palette_png_error(image.width, image.height, image.data@, *options)),
        },
{
    match exact_palette(image) {
        None => Ok(None),
        Some((palette, indices)) => {
            proof {
                if palette_image_decodable(image.width, image.height, exact_palette_entries(image.data@)) {
                    lemma_exact_palette_pixels(image.width, image.height, image.data@);
                }
            }
            let raw = encode_indexed_png(image.width, image.height, palette.as_slice(), indices.as_slice())?;
            let data = optimize_png(raw, options)?;
            Ok(Some(PalettePngOutput { data, lossless: true, remapping_quality: Some(100) }))
        },
    }
}

/// Split flat RGBA palette bytes into entries (a trailing partial entry is dropped).
fn palette_entries(flat: &Vec<u8>) -> (r: Vec<[u8; 4]>)
    ensures
        r@.map_values(|e: [u8; 4]| e@) == flat_entries(flat@),
{
    let mut out: Vec<[u8; 4]> = Vec::new();
    let len = flat.len();
    let n = len / 4;
    let mut k: usize = 0;
    while k < n
        invariant
            len == flat@.len(),
            n == len / 4,
            k <= n,
            out@.len() == k,
            forall|j: int| 0 <= j < k ==> (#[trigger] out@[j])@ == flat@.subrange(4 * j, 4 * j + 4),
        decreases n - k,
    {
        assert(4 * k + 3 < len);
        let b = 4 * k;
        let entry: [u8; 4] = [flat[b], flat[b + 1], flat[b + 2], flat[b + 3]];
        proof {
            assert(entry@ =~= flat@.subrange(4 * k, 4 * k + 4));
        }
        out.push(entry);
        k = k + 1;
    }
    proof {
        assert(out@.map_values(|e: [u8; 4]| e@) =~= flat_entries(flat@));
    }
    out
}

/// A quantized palette PNG is made from an indexed image of the same size
/// with imagequant's palette of at most 256 entries and one in-range index
/// per pixel: the indexed PNG's header gives that size and that palette,
/// the optimized file keeps the size, and (within the decoder's limit) it
/// decodes to those colors.
pub open spec fn quantized_png_decodes(width: u32, height: u32, rgba: Seq<u8>, options: EncodeOptions, bytes: Seq<u8>) -> bool {
    match imagequant_remapped(width, height, rgba, 85, 95, spec_imagequant_speed(options.effort) as i32, 0, 1) {
        Some((flat, indices, _)) => {
            &&& flat_entries(flat).len() <= 256
            &&& indices.len() == width * height
            &&& forall|i: int| 0 <= i < indices.len() ==> (#[trigger] indices[i]) < flat_entries(flat).len()
            &&& optimized_with(indexed_png_of(width, height, flat_entries(flat), indices), options) == Some(bytes)
            &&& indexed_png_of(width, height, flat_entries(flat), indices) matches Some(raw) && indexed_png_header(
                raw,
                width,
                height,
                palette_rgb(flat_entries(flat)),
            )
            &&& palette_rgb(flat_entries(flat)).len() == 3 * flat_entries(flat).len()
            &&& png_header_dims(bytes) == Some((width as int, height as int))
            &&& palette_image_decodable(width, height, flat_entries(flat)) ==> image_crate_decoded(bytes, Format::Png) == Some(
                (width, height, entry_pixels(flat_entries(flat), indices)),
            )
        },
        None => false,
    }
}

/// Palette PNG from an imagequant palette (quality 85..=95, full dithering).
fn encode_quantized_palette_png(image: &ImageData, options: &EncodeOptions) -> (r: Result<PalettePngOutput>)
    requires
        image.well_formed(),
    ensures
        palette_result_view(r) == quantized_palette_png_of(image.width, image.height, image.data@, *options),
        r matches Err(e) ==> (e matches Error::Encode(m) && m@ == quantized_png_error(image.width, image.height, image.data@, *options)),
        r matches Ok(out) ==> quantized_png_decodes(image.width, image.height, image.data@, *options, out.data@),
{
    let speed = effort_to_imagequant_speed(options.effort);
    let (flat_palette, indices, remapping_quality) = match imagequant_remap(
        image.data.as_slice(),
        image.width,
        image.height,
        85,
        95,
        speed,
        0,
        1,
    ) {
        Ok(v) => v,
        Err(message) => return Err(Error::Encode(message)),
    };
    let palette = palette_entries(&flat_palette);
    proof {
        let entries = palette@.map_values(|e: [u8; 4]| e@);
        assert(palette@.len() == entries.len());
        assert forall|j: int| 0 <= j < entries.len() implies (#[trigger] entries[j]).len() == 4 by {
            assert(entries[j] == palette@[j]@);
        }
        lemma_palette_rgb_len(entries);
        assert forall|i: int| 0 <= i < indices@.len() implies (#[trigger] indices@[i]) < palette@.len() by {
            assert(4 * indices@[i] < flat_palette@.len());
        }
        if palette_image_decodable(image.width, image.height, entries) {
            assert(indices@.len() >= 1) by (nonlinear_arith)
                requires
                    indices@.len() == image.width * image.height,
                    image.width >= 1,
                    image.height >= 1,
            ;
            assert(4 * indices@[0] < flat_palette@.len());
            assert forall|i: int| 0 <= i < indices@.len() implies (#[trigger] indices@[i]) < palette@.len() by {
                assert(4 * indices@[i] < flat_palette@.len());
            }
            assert(indexed_image_decodable(image.width, image.height, palette@.len(), indices@, palette_decode_bytes(entries)));
        }
    }
    let raw = encode_indexed_png(image.width, image.height, palette.as_slice(), indices.as_slice())?;
    let data = optimize_png(raw, options)?;
    Ok(PalettePngOutput { data, lossless: false, remapping_quality })
}

/// What a palette PNG decodes to: the image itself with the exact palette,
/// otherwise colors of imagequant's palette.
pub open spec fn palette_png_decodes(width: u32, height: u32, rgba: Seq<u8>, options: EncodeOptions, bytes: Seq<u8>) -> bool {
    if fits_exact_palette(rgba) {
        &&& png_header_dims(bytes) == Some((width as int, height as int))
        &&& palette_image_decodable(width, height, exact_palette_entries(rgba)) ==> image_crate_decoded(bytes, Format::Png) == Some(
            (width, height, rgba),
        )
    } else {
        quantized_png_decodes(width, height, rgba, options, bytes)
    }
}

/// Palette PNG: the exact palette when it exists, otherwise a quantized one.
fn encode_palette_png(image: &ImageData, options: &EncodeOptions) -> (r: Result<PalettePngOutput>)
    requires
        image.well_formed(),
    ensures
        palette_result_view(r) == palette_png_result(image.width, image.height, image.data@, *options),
        r matches Err(e) ==> (e matches Error::Encode(m) && m@ == palette_png_error(image.width, image.height, image.data@, *options)),
        r matches Ok(out) ==> palette_png_decodes(image.width, image.height, image.data@, *options, out.data@),
{
    match encode_exact_palette_png(image, options) {
        Ok(Some(output)) => Ok(output),
        Ok(None) => encode_quantized_palette_png(image, options),
        Err(e) => Err(e),
    }
}

/// Whether the image statistics allow Auto mode to try a palette.
fn palette_candidate_allowed(image: &ImageData) -> (r: bool)
    ensures
        r == palette_candidate(image.data@),
{
    match analyze_palette_suitability(image).recommendation {
        PaletteRecommendation::On | PaletteRecommendation::Review => true,
        PaletteRecommendation::Off => false,
    }
}

/// Auto mode's choice between the plain PNG and a palette candidate.
pub fn should_use_auto_palette(rgba: &[u8], palette: &PalettePngOutput) -> (r: bool)
    ensures
        r == prefer_palette(rgba@.len() as int, palette_view(*palette)),
{
    if palette.lossless {
        palette.data.len() < rgba.len()
    } else {
        match palette.remapping_quality {
            Some(quality) => quality >= 90 && (palette.data.len() as u128) * 100 <= (rgba.len() as u128) * 95,
            None => false,
        }
    }
}

impl Codec for PngCodec {
    open spec fn spec_format(&self) -> Format {
        Format::Png
    }

    open spec fn decoded(&self, data: Seq<u8>) -> Option<(u32, u32, Seq<u8>)> {
        image_crate_decoded(data, Format::Png)
    }

    open spec fn decode_error(&self, data: Seq<u8>) -> Seq<char> {
        "png"@ + " decode: "@ + image_crate_error(data, Format::Png)
    }

    open spec fn encode_outcome(&self, width: u32, height: u32, rgba: Seq<u8>, options: EncodeOptions, out: Option<Seq<u8>>) -> bool {
        png_encode_outcome(width, height, rgba, options, out)
    }

    open spec fn encode_error_ok(&self, width: u32, height: u32, rgba: Seq<u8>, options: EncodeOptions, message: Seq<char>) -> bool {
        message == png_encode_error_text(width, height, rgba, options)
    }

    open spec fn encode_admits(&self, width: u32, height: u32, rgba: Seq<u8>, options: EncodeOptions) -> bool {
        true
    }

    fn format(&self) -> (f: Format) {
        Format::Png
    }

    fn decode(&self, data: &[u8]) -> (r: Result<ImageData>) {
        decode_via_image_crate(data, Format::Png, "png")
    }

    fn encode(&self, image: &ImageData, options: &EncodeOptions) -> (r: Result<Vec<u8>>) {
        match options.png_palette {
            PngPaletteMode::Off => encode_rgba_png(image, options),
            PngPaletteMode::On => {
                let r = encode_palette_png(image, options);
                match r {
                    Ok(output) => Ok(output.data),
                    Err(e) => Err(e),
                }
            },
            PngPaletteMode::Auto => {
                let rgba = encode_rgba_png(image, options)?;
                if !palette_candidate_allowed(image) {
                    return Ok(rgba);
                }
                let r = encode_palette_png(image, options);
                let palette = match r {
                    Ok(output) => output,
                    Err(_) => return Ok(rgba),
                };
                if should_use_auto_palette(rgba.as_slice(), &palette) {
                    Ok(palette.data)
                } else {
                    Ok(rgba)
                }
            },
        }
    }
}

/// Plain PNG output is lossless: what the PNG codec encodes without a
/// palette decodes back to the same dimensions and RGBA pixels (for images
/// within the decoder's allocation limit).
pub proof fn png_roundtrip(width: u32, height: u32, rgba: Seq<u8>, options: EncodeOptions, bytes: Seq<u8>)
    requires
        options.png_palette == PngPaletteMode::Off,
        width * height * 4 <= IMAGE_DECODE_LIMIT,
        PngCodec.encode_outcome(width, height, rgba, options, Some(bytes)),
    ensures
        PngCodec.decoded(bytes) == Some((width, height, rgba)),
{
}

/// A palette PNG of an image with at most 256 colors is lossless: it
/// decodes back to the same dimensions and RGBA pixels (for images within
/// the decoder's allocation limit).
pub proof fn png_palette_roundtrip(width: u32, height: u32, rgba: Seq<u8>, options: EncodeOptions, bytes: Seq<u8>)
    requires
        options.png_palette == PngPaletteMode::On,
        fits_exact_palette(rgba),
        palette_image_decodable(width, height, exact_palette_entries(rgba)),
        PngCodec.encode_outcome(width, height, rgba, options, Some(bytes)),
    ensures
        PngCodec.decoded(bytes) == Some((width, height, rgba)),
{
}

/// A palette PNG, exact or quantized, is a PNG of the image's own width
/// and height, at every size.
pub proof fn png_palette_keeps_size(width: u32, height: u32, rgba: Seq<u8>, options: EncodeOptions, bytes: Seq<u8>)
    requires
        options.png_palette == PngPaletteMode::On,
        PngCodec.encode_outcome(width, height, rgba, options, Some(bytes)),
    ensures
        png_header_dims(bytes) == Some((width as int, height as int)),
{
}

/// Auto mode never does worse than plain output: it succeeds exactly when
/// plain output does, its file is never larger, and it differs from the
/// plain file only by a palette PNG that the size and quality rules prefer.
pub proof fn png_auto_never_larger(
    width: u32,
    height: u32,
    rgba: Seq<u8>,
    options: EncodeOptions,
    auto_out: Option<Seq<u8>>,
    plain_out: Option<Seq<u8>>,
)
    requires
        options.png_palette == PngPaletteMode::Auto,
        PngCodec.encode_outcome(width, height, rgba, options, auto_out),
        PngCodec.encode_outcome(width, height, rgba, EncodeOptions { png_palette: PngPaletteMode::Off, ..options }, plain_out),
    ensures
        auto_out is Some <==> plain_out is Some,
        auto_out matches Some(a) ==> (plain_out matches Some(b) && a.len() <= b.len() && (a != b ==> (palette_png_result(
            width,
            height,
            rgba,
            options,
        ) matches Some(v) && v.0 == a && prefer_palette(b.len() as int, v)))),
{
    assert(png_preset(EncodeOptions { png_palette: PngPaletteMode::Off, ..options }) == png_preset(options));
    assert(rgba_png_of(width, height, rgba, EncodeOptions { png_palette: PngPaletteMode::Off, ..options }) == rgba_png_of(
        width,
        height,
        rgba,
        options,
    ));
}

/// Every preset and speed lies in the range its tool accepts; more effort
/// never selects a cheaper preset nor a faster quantizer speed.
pub proof fn png_tuning_in_range_and_monotone(q: u8, a: u8, b: u8)
    ensures
        1 <= spec_quality_preset(q) <= 6,
        0 <= spec_effort_preset(a) <= 6,
        a <= b ==> spec_effort_preset(a) <= spec_effort_preset(b),
        1 <= spec_imagequant_speed(Some(a)) <= 10,
        a <= b ==> spec_imagequant_speed(Some(b)) <= spec_imagequant_speed(Some(a)),
        spec_imagequant_speed(None) == spec_imagequant_speed(Some(50)),
        spec_effort_preset(0) == 0,
        spec_effort_preset(50) == 2,
        spec_effort_preset(100) == 6,
{
}

} // verus!
