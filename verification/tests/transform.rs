use slimg::codec::{ImageData, JxlEncoderPreference, PngPaletteMode};
use slimg::color::{parse_hex_color, HexColorError};
use slimg::crop::{crop, fit_aspect, CropMode};
use slimg::error::Error;
use slimg::extend::{cover_aspect, extend, ExtendMode, FillColor};
use slimg::format::Format;
use slimg::pipeline::{convert, decode, transform, PipelineOptions};
use slimg::resize::{resize, ResizeMode};

/// A `width` x `height` image whose pixel (x, y) is [x, y, 7, 255].
fn numbered(width: u32, height: u32) -> ImageData {
    let mut data = Vec::new();
    for y in 0..height {
        for x in 0..width {
            data.extend_from_slice(&[x as u8, y as u8, 7, 255]);
        }
    }
    ImageData::new(width, height, data)
}

fn pixel(image: &ImageData, x: u32, y: u32) -> [u8; 4] {
    let i = ((y * image.width + x) * 4) as usize;
    [image.data[i], image.data[i + 1], image.data[i + 2], image.data[i + 3]]
}

fn pipeline(format: Format) -> PipelineOptions {
    PipelineOptions {
        format,
        quality: 80,
        effort: None,
        png_palette: PngPaletteMode::Off,
        jxl_encoder: JxlEncoderPreference::Libjxl,
        threads: None,
        resize: None,
        crop: None,
        extend: None,
        fill_color: None,
    }
}

fn error_text(result: Result<ImageData, Error>) -> String {
    match result {
        Err(e) => e.message(),
        Ok(image) => panic!("expected an error, got a {}x{} image", image.width, image.height),
    }
}

// ---- crop ----

#[test]
fn crop_region_copies_the_rectangle() {
    let image = numbered(4, 3);
    let out = crop(&image, &CropMode::Region { x: 1, y: 1, width: 2, height: 2 }).expect("crop failed");
    assert_eq!((out.width, out.height), (2, 2));
    assert_eq!(out.data, vec![1, 1, 7, 255, 2, 1, 7, 255, 1, 2, 7, 255, 2, 2, 7, 255]);
}

#[test]
fn crop_region_must_lie_inside_the_image() {
    let image = numbered(4, 3);
    let outside = crop(&image, &CropMode::Region { x: 3, y: 0, width: 2, height: 1 });
    assert_eq!(error_text(outside), "crop error: crop region lies outside the image");
    let empty = crop(&image, &CropMode::Region { x: 0, y: 0, width: 0, height: 1 });
    assert_eq!(error_text(empty), "crop error: crop region must have a non-zero width and height");
}

#[test]
fn crop_aspect_is_centered() {
    let image = numbered(4, 2);
    let out = crop(&image, &CropMode::AspectRatio { width: 1, height: 1 }).expect("crop failed");
    assert_eq!((out.width, out.height), (2, 2));
    assert_eq!(pixel(&out, 0, 0), [1, 0, 7, 255]);
    assert_eq!(pixel(&out, 1, 1), [2, 1, 7, 255]);
    // 16:9 of a 1920x1440 image keeps the width.
    assert_eq!(fit_aspect(1920, 1440, 16, 9), (1920, 1080));
    assert_eq!(fit_aspect(1000, 1000, 16, 9), (1000, 562));
}

#[test]
fn crop_aspect_errors() {
    let image = numbered(1, 1);
    let zero = crop(&image, &CropMode::AspectRatio { width: 0, height: 9 });
    assert_eq!(error_text(zero), "crop error: aspect ratio values must be non-zero");
    let small = crop(&image, &CropMode::AspectRatio { width: 16, height: 9 });
    assert_eq!(error_text(small), "crop error: image is too small for the aspect ratio");
}

// ---- extend ----

#[test]
fn extend_to_size_centers_the_image() {
    let image = numbered(2, 2);
    let out = extend(&image, &ExtendMode::Size { width: 4, height: 4 }, &FillColor::Solid([255, 0, 0, 255])).expect("extend failed");
    assert_eq!((out.width, out.height), (4, 4));
    assert_eq!(pixel(&out, 0, 0), [255, 0, 0, 255]);
    assert_eq!(pixel(&out, 1, 1), [0, 0, 7, 255]);
    assert_eq!(pixel(&out, 2, 2), [1, 1, 7, 255]);
    assert_eq!(pixel(&out, 3, 3), [255, 0, 0, 255]);
}

#[test]
fn extend_to_aspect_with_transparency() {
    let image = numbered(4, 2);
    let out = extend(&image, &ExtendMode::AspectRatio { width: 1, height: 1 }, &FillColor::Transparent).expect("extend failed");
    assert_eq!((out.width, out.height), (4, 4));
    assert_eq!(pixel(&out, 0, 0), [0, 0, 0, 0]);
    assert_eq!(pixel(&out, 3, 1), [3, 0, 7, 255]);
    assert_eq!(pixel(&out, 0, 2), [0, 1, 7, 255]);
    assert_eq!(pixel(&out, 2, 3), [0, 0, 0, 0]);
    assert_eq!(cover_aspect(1920, 1000, 16, 9), (1920, 1080));
    assert_eq!(cover_aspect(1000, 1000, 16, 9), (1778, 1000));
}

#[test]
fn extend_errors() {
    let image = numbered(4, 2);
    let smaller = extend(&image, &ExtendMode::Size { width: 3, height: 2 }, &FillColor::Transparent);
    assert_eq!(error_text(smaller), "extend error: target size must be at least the image size");
    let zero = extend(&image, &ExtendMode::AspectRatio { width: 1, height: 0 }, &FillColor::Transparent);
    assert_eq!(error_text(zero), "extend error: aspect ratio values must be non-zero");
    let huge = extend(&image, &ExtendMode::AspectRatio { width: 1, height: u32::MAX }, &FillColor::Transparent);
    assert_eq!(error_text(huge), "extend error: extended image is too large");
}

// ---- resize ----

#[test]
fn resize_modes_compute_the_size() {
    let image = numbered(4, 2);
    let by_width = resize(&image, &ResizeMode::Width(2)).expect("resize failed");
    assert_eq!((by_width.width, by_width.height), (2, 1));
    assert_eq!(by_width.data.len(), 2 * 4);
    let by_height = resize(&image, &ResizeMode::Height(3)).expect("resize failed");
    assert_eq!((by_height.width, by_height.height), (6, 3));
    let fit = resize(&image, &ResizeMode::Fit(3, 3)).expect("resize failed");
    assert_eq!((fit.width, fit.height), (3, 2));
    let exact = resize(&image, &ResizeMode::Exact(5, 7)).expect("resize failed");
    assert_eq!((exact.width, exact.height), (5, 7));
    assert_eq!(exact.data.len(), 5 * 7 * 4);
}

#[test]
fn resize_to_own_size_keeps_pixels() {
    let image = numbered(5, 3);
    let same = resize(&image, &ResizeMode::Exact(5, 3)).expect("resize failed");
    assert_eq!(same.data, image.data);
}

#[test]
fn resize_errors() {
    let image = numbered(4, 2);
    assert_eq!(error_text(resize(&image, &ResizeMode::Width(0))), "resize error: target size must be non-zero");
    let empty = ImageData::new(0, 0, Vec::new());
    assert_eq!(error_text(resize(&empty, &ResizeMode::Exact(2, 2))), "resize error: cannot resize an empty image");
}

// ---- pipeline ----

#[test]
fn transform_applies_crop_then_extend_then_resize() {
    let image = numbered(8, 4);
    let mut options = pipeline(Format::Png);
    options.crop = Some(CropMode::Region { x: 0, y: 0, width: 4, height: 2 });
    options.extend = Some(ExtendMode::AspectRatio { width: 1, height: 1 });
    options.resize = Some(ResizeMode::Width(8));
    let out = transform(&image, &options).expect("transform failed");
    assert_eq!((out.width, out.height), (8, 8));
    // Without a fill color, the added area is opaque white.
    let mut options = pipeline(Format::Png);
    options.extend = Some(ExtendMode::Size { width: 10, height: 4 });
    let out = transform(&image, &options).expect("transform failed");
    assert_eq!(pixel(&out, 0, 0), [255, 255, 255, 255]);
    assert_eq!(pixel(&out, 1, 0), [0, 0, 7, 255]);
}

#[test]
fn convert_reports_the_transformed_size() {
    let image = numbered(8, 4);
    let mut options = pipeline(Format::Qoi);
    options.crop = Some(CropMode::AspectRatio { width: 1, height: 1 });
    let result = convert(&image, &options).expect("convert failed");
    assert_eq!((result.format, result.width, result.height), (Format::Qoi, 4, 4));
    let (decoded, _) = decode(&result.data).expect("decode failed");
    assert_eq!(pixel(&decoded, 0, 0), [2, 0, 7, 255]);
}

#[test]
fn convert_passes_transform_errors_through() {
    let image = numbered(8, 4);
    let mut options = pipeline(Format::Png);
    options.crop = Some(CropMode::Region { x: 8, y: 0, width: 1, height: 1 });
    match convert(&image, &options) {
        Err(Error::Crop(message)) => assert_eq!(message, "crop region lies outside the image"),
        other => panic!("unexpected result: {:?}", other.map(|r| r.width)),
    }
}

#[test]
fn convert_reports_refused_images() {
    let image = numbered(2, 2);
    let mut options = pipeline(Format::WebP);
    options.quality = 101;
    match convert(&image, &options) {
        Err(Error::Encode(message)) => {
            assert_eq!(message, "the webp encoder does not accept this image with these options")
        },
        other => panic!("unexpected result: {:?}", other.map(|r| r.width)),
    }
}

// ---- fill colors ----

#[test]
fn parse_hex_color_6_digits() {
    assert_eq!(parse_hex_color(b"FF0000"), Ok([255, 0, 0, 255]));
}

#[test]
fn parse_hex_color_with_hash() {
    assert_eq!(parse_hex_color(b"#00FF00"), Ok([0, 255, 0, 255]));
}

#[test]
fn parse_hex_color_8_digits() {
    assert_eq!(parse_hex_color(b"FF000080"), Ok([255, 0, 0, 128]));
}

#[test]
fn parse_hex_color_invalid() {
    assert!(parse_hex_color(b"xyz").is_err());
}

#[test]
fn hex_color_errors_and_signs() {
    assert_eq!(parse_hex_color(b"12345"), Err(HexColorError::WrongLength));
    assert_eq!(parse_hex_color(b"GG0000"), Err(HexColorError::InvalidDigit));
    assert_eq!(parse_hex_color(b"##ff8000"), Ok([255, 128, 0, 255]));
    assert_eq!(parse_hex_color(b"+F0000"), Ok([15, 0, 0, 255]));
}
