use slimg::codec::jxl::{
    classify_failure, effort_to_jxl_effort, encode_with_diagnostics, gjxl_backend_compiled,
    gjxl_preflight_fallback, libjxl_unavailable, validate_image_layout, GjxlAttempt, GjxlErrorKind,
    JxlCodec, JxlEncodeBackend, JxlFallbackReason,
};
use slimg::codec::png::{
    effort_to_imagequant_speed, effort_to_oxipng_preset, encode_indexed_png, quality_to_oxipng_preset,
    should_use_auto_palette, PalettePngOutput,
};
use slimg::codec::{Codec, EncodeOptions, ImageData, JxlEncoderPreference, PngPaletteMode};
use slimg::error::Error;
use slimg::format::Format;
use slimg::palette::{analyze_palette_suitability, pack_rgba, top_color_count, PaletteRecommendation};
use slimg::pipeline::{
    convert, decode, keep_optimized, optimize, optimize_with_options, output_path, PipelineOptions,
};
use slimg::text::decimal;

fn create_test_image(width: u32, height: u32) -> ImageData {
    let mut pixels = Vec::with_capacity((width * height * 4) as usize);
    for y in 0..height {
        for x in 0..width {
            let r = ((x * 255) / width.max(1)) as u8;
            let g = ((y * 255) / height.max(1)) as u8;
            pixels.extend_from_slice(&[r, g, 128, 255]);
        }
    }
    ImageData::new(width, height, pixels)
}

fn options(quality: u8) -> EncodeOptions {
    EncodeOptions {
        quality,
        effort: None,
        png_palette: Default::default(),
        jxl_encoder: JxlEncoderPreference::PreferGjxl,
        threads: None,
    }
}

// ---- Format detection ----

#[test]
fn magic_bytes_identify_each_format() {
    assert_eq!(Format::from_magic_bytes(&[0xFF, 0xD8, 0xFF, 0xE0]), Some(Format::Jpeg));
    assert_eq!(Format::from_magic_bytes(&[0x89, 0x50, 0x4E, 0x47, 0x0D]), Some(Format::Png));
    assert_eq!(Format::from_magic_bytes(b"RIFF\0\0\0\0WEBPVP8 "), Some(Format::WebP));
    assert_eq!(Format::from_magic_bytes(b"\0\0\0\x1cftypavif"), Some(Format::Avif));
    assert_eq!(Format::from_magic_bytes(b"\0\0\0\x1cftypavis"), Some(Format::Avif));
    assert_eq!(Format::from_magic_bytes(&[0xFF, 0x0A]), Some(Format::Jxl));
    assert_eq!(Format::from_magic_bytes(b"\0\0\0\x0cJXL \r\n"), Some(Format::Jxl));
    assert_eq!(Format::from_magic_bytes(b"qoif"), Some(Format::Qoi));
    assert_eq!(Format::from_magic_bytes(b"GIF89a"), None);
    assert_eq!(Format::from_magic_bytes(&[]), None);
}

#[test]
fn extensions_and_encodability() {
    assert_eq!(Format::Jpeg.extension(), "jpg");
    assert_eq!(Format::Png.extension(), "png");
    assert_eq!(Format::WebP.extension(), "webp");
    assert_eq!(Format::Avif.extension(), "avif");
    assert_eq!(Format::Jxl.extension(), "jxl");
    assert_eq!(Format::Qoi.extension(), "qoi");
    assert!(Format::Png.can_encode());
    assert!(!Format::Jxl.can_encode());
}

// ---- Errors and text ----

#[test]
fn error_messages_name_their_kind() {
    assert_eq!(Error::Decode("bad".to_string()).message(), "decode error: bad");
    assert_eq!(Error::Encode("worse".to_string()).message(), "encode error: worse");
    assert_eq!(Error::Io("gone".to_string()).message(), "I/O error: gone");
    assert_eq!(Error::UnknownFormat("x".to_string()).message(), "unknown format: x");
    assert_eq!(
        Error::EncodingNotSupported(Format::Qoi).message(),
        "encoding not supported for format: qoi"
    );
}

#[test]
fn decimal_matches_format() {
    for n in [0u64, 7, 10, 15, 99, 100, 65500, 1_234_567_890, u64::MAX] {
        assert_eq!(decimal(n), format!("{n}"));
    }
}

// ---- Palette analysis ----

#[test]
fn recommends_palette_for_low_color_image() {
    let image = ImageData::new(
        2,
        2,
        vec![255, 0, 0, 255, 255, 0, 0, 255, 0, 0, 255, 255, 0, 0, 255, 255],
    );

    let stats = analyze_palette_suitability(&image);

    assert_eq!(stats.unique_color_count, 2);
    assert_eq!(stats.recommendation, PaletteRecommendation::On);
}

#[test]
fn reports_alpha() {
    let image = ImageData::new(1, 1, vec![0, 0, 0, 0]);

    let stats = analyze_palette_suitability(&image);

    assert!(stats.has_alpha);
}

#[test]
fn empty_image_is_not_a_palette_candidate() {
    let stats = analyze_palette_suitability(&ImageData::new(0, 0, Vec::new()));
    assert_eq!(stats.unique_color_count, 0);
    assert_eq!(stats.total_pixels, 0);
    assert!(!stats.has_alpha);
    assert_eq!(stats.recommendation, PaletteRecommendation::Off);
}

#[test]
fn many_colors_use_top_coverage() {
    // 300 distinct colors, one pixel each: the top 256 cover 256 of 300 pixels (< 90%).
    let mut data = Vec::new();
    for i in 0..300u32 {
        data.extend_from_slice(&[(i % 256) as u8, (i / 256) as u8, 7, 255]);
    }
    let stats = analyze_palette_suitability(&ImageData::new(300, 1, data));
    assert_eq!(stats.unique_color_count, 300);
    assert_eq!(stats.top_256_pixel_count, 256);
    assert_eq!(stats.total_pixels, 300);
    assert_eq!(stats.recommendation, PaletteRecommendation::Off);

    // 300 distinct colors, but one of them covers 2700 of 3000 pixels: 98% or more.
    let mut data = Vec::new();
    for i in 0..300u32 {
        data.extend_from_slice(&[(i % 256) as u8, (i / 256) as u8, 7, 255]);
    }
    for _ in 0..2700 {
        data.extend_from_slice(&[1, 2, 3, 255]);
    }
    let stats = analyze_palette_suitability(&ImageData::new(3000, 1, data));
    assert_eq!(stats.unique_color_count, 301);
    assert_eq!(stats.top_256_pixel_count, 2700 + 255);
    assert_eq!(stats.recommendation, PaletteRecommendation::On);
}

#[test]
fn review_band_between_ninety_and_ninety_eight_percent() {
    // 300 singletons plus 1000 pixels of one color: the top 256 cover 1255
    // of 1300 pixels (96.5%), which asks for review.
    let mut data = Vec::new();
    for i in 0..300u32 {
        data.extend_from_slice(&[(i % 256) as u8, (i / 256) as u8, 9, 255]);
    }
    for _ in 0..1000 {
        data.extend_from_slice(&[1, 2, 3, 255]);
    }
    let stats = analyze_palette_suitability(&ImageData::new(1300, 1, data));
    assert_eq!(stats.top_256_pixel_count, 1255);
    assert_eq!(stats.recommendation, PaletteRecommendation::Review);
}

#[test]
fn pack_and_top_count() {
    assert_eq!(pack_rgba(&[0x12, 0x34, 0x56, 0x78]), 0x1234_5678);
    assert_eq!(top_color_count(&vec![3u64, 9, 1]), 13);
    let many: Vec<u64> = (1..=300).collect();
    // The 256 largest of 1..=300 are 45..=300.
    assert_eq!(top_color_count(&many), (45..=300u64).sum::<u64>());
}

// ---- PNG tuning ----

#[test]
fn png_tuning_exact_values() {
    assert_eq!(quality_to_oxipng_preset(100), 1);
    assert_eq!(quality_to_oxipng_preset(90), 1);
    assert_eq!(quality_to_oxipng_preset(89), 2);
    assert_eq!(quality_to_oxipng_preset(50), 3);
    assert_eq!(quality_to_oxipng_preset(30), 4);
    assert_eq!(quality_to_oxipng_preset(29), 6);
    assert_eq!(quality_to_oxipng_preset(200), 6);
    assert_eq!(effort_to_oxipng_preset(0), 0);
    assert_eq!(effort_to_oxipng_preset(50), 2);
    assert_eq!(effort_to_oxipng_preset(100), 6);
    assert_eq!(effort_to_imagequant_speed(None), 5);
    assert_eq!(effort_to_imagequant_speed(Some(0)), 10);
    assert_eq!(effort_to_imagequant_speed(Some(100)), 1);
}

#[test]
fn indexed_png_decodes_to_palette_colors() {
    let palette = [[10u8, 20, 30, 255], [200, 100, 50, 128]];
    let bytes = encode_indexed_png(2, 1, &palette, &[1, 0]).expect("indexed encode failed");
    let decoded = slimg::codec::png::PngCodec.decode(&bytes).expect("decode failed");
    assert_eq!(decoded.data, vec![200, 100, 50, 128, 10, 20, 30, 255]);
}

#[test]
fn auto_palette_lossy_needs_quality_and_savings() {
    let rgba = vec![0u8; 100];
    let good = PalettePngOutput { data: vec![0u8; 95], lossless: false, remapping_quality: Some(90) };
    let too_big = PalettePngOutput { data: vec![0u8; 96], lossless: false, remapping_quality: Some(99) };
    let too_poor = PalettePngOutput { data: vec![0u8; 10], lossless: false, remapping_quality: Some(89) };
    assert!(should_use_auto_palette(&rgba, &good));
    assert!(!should_use_auto_palette(&rgba, &too_big));
    assert!(!should_use_auto_palette(&rgba, &too_poor));
}

#[test]
fn auto_palette_needs_smaller_output() {
    let rgba = vec![0u8; 400];
    let small = PalettePngOutput { data: vec![0u8; 10], lossless: true, remapping_quality: None };
    let huge = PalettePngOutput { data: vec![0u8; 1000], lossless: true, remapping_quality: None };
    assert!(should_use_auto_palette(&rgba, &small));
    assert!(!should_use_auto_palette(&rgba, &huge));
}

// ---- JPEG XL ----

#[test]
fn only_unsupported_and_unavailable_fall_back() {
    let unsupported = classify_failure(GjxlErrorKind::Unsupported, "unsupported".into())
        .expect("unsupported should fall back");
    assert!(matches!(
        unsupported,
        GjxlAttempt::Fallback(JxlFallbackReason::Unsupported(_))
    ));

    let unavailable = classify_failure(GjxlErrorKind::Unavailable, "unavailable".into())
        .expect("unavailable should fall back");
    assert!(matches!(
        unavailable,
        GjxlAttempt::Fallback(JxlFallbackReason::Unavailable(_))
    ));

    for kind in [
        GjxlErrorKind::InvalidArgument,
        GjxlErrorKind::OutOfMemory,
        GjxlErrorKind::Backend,
        GjxlErrorKind::Internal,
    ] {
        assert!(
            classify_failure(kind, "fatal".into()).is_err(),
            "{kind:?} must not silently fall back"
        );
    }
}

#[test]
fn classify_failure_message_names_the_kind() {
    match classify_failure(GjxlErrorKind::Backend, "gpu lost".into()) {
        Err(Error::Encode(message)) => assert_eq!(message, "GJXL Backend: gpu lost"),
        _ => panic!("backend failures are errors"),
    }
}

#[test]
fn effort_mapping_covers_low_default_and_high_tiers() {
    assert_eq!(effort_to_jxl_effort(0), 1);
    assert_eq!(effort_to_jxl_effort(50), 7);
    assert_eq!(effort_to_jxl_effort(100), 10);
}

#[test]
fn malformed_image_layout_is_rejected_before_native_code() {
    let mut image = create_test_image(2, 2);
    image.data.pop();
    let error = encode_with_diagnostics(&image, &options(80), libjxl_unavailable)
        .expect_err("short RGBA data must fail");
    assert!(error.message().contains("data length mismatch"));
}

#[test]
fn layout_messages_are_exact() {
    let mut image = create_test_image(2, 2);
    image.data.pop();
    match validate_image_layout(&image) {
        Err(Error::Encode(message)) => {
            assert_eq!(message, "JXL image data length mismatch: expected 16 bytes, got 15")
        },
        _ => panic!("short data must be rejected"),
    }
    match validate_image_layout(&ImageData::new(0, 3, Vec::new())) {
        Err(Error::Encode(message)) => assert_eq!(message, "JXL image dimensions must be nonzero"),
        _ => panic!("empty images must be rejected"),
    }
    assert!(validate_image_layout(&create_test_image(3, 2)).is_ok());
}

#[test]
fn capability_matches_the_build_feature() {
    assert!(!gjxl_backend_compiled());
}

#[test]
fn preflight_reasons_in_order() {
    let opaque = create_test_image(8, 8);
    assert_eq!(gjxl_preflight_fallback(&opaque, &options(100)), Some(JxlFallbackReason::Lossless));
    let mut transparent = opaque.clone();
    transparent.data[3] = 128;
    assert_eq!(
        gjxl_preflight_fallback(&transparent, &options(80)),
        Some(JxlFallbackReason::NonOpaqueAlpha)
    );
    let mut threaded = options(80);
    threaded.threads = Some(1);
    assert_eq!(gjxl_preflight_fallback(&opaque, &threaded), Some(JxlFallbackReason::ThreadBudget));
    assert_eq!(gjxl_preflight_fallback(&opaque, &options(80)), None);
}

#[test]
fn jxl_without_libjxl_reports_errors() {
    assert!(matches!(JxlCodec.decode(&[0xFF, 0x0A]), Err(Error::Decode(_))));
    match JxlCodec.encode(&create_test_image(4, 4), &options(80)) {
        Err(Error::Encode(message)) => {
            assert_eq!(message, "JPEG XL encoding requires libjxl, which this build does not include")
        },
        _ => panic!("this build cannot encode JPEG XL"),
    }
}

// ---- Pipeline ----

#[test]
fn output_path_changes_extension() {
    let result = output_path("/tmp/photo.jpg", Format::WebP, None, false);
    assert_eq!(result, "/tmp/photo.webp");
}

#[test]
fn output_path_with_explicit_output() {
    let result = output_path("/tmp/photo.jpg", Format::Png, Some("/out/result.png"), false);
    assert_eq!(result, "/out/result.png");
}

#[test]
fn output_path_inside_directory_uses_stem() {
    let result = output_path("/tmp/photo.jpg", Format::Avif, Some("/out"), true);
    assert_eq!(result, "/out/photo.avif");
}

#[test]
fn output_path_inside_directory_keeps_the_file_name() {
    let result = output_path("/a/my.photo.jpg", Format::WebP, Some("/o"), true);
    assert_eq!(result, "/o/my.photo.webp");
}

#[test]
fn convert_to_jpeg_xl_is_refused_without_an_encoder() {
    let pipeline = PipelineOptions {
        format: Format::Jxl,
        quality: 80,
        effort: None,
        png_palette: PngPaletteMode::Off,
        jxl_encoder: JxlEncoderPreference::Libjxl,
        threads: None,
        resize: None,
        crop: None,
        extend: None,
        fill_color: None,
    };
    match convert(&ImageData::new(2, 2, vec![128u8; 16]), &pipeline) {
        Err(error) => assert!(matches!(error, Error::EncodingNotSupported(Format::Jxl))),
        Ok(_) => panic!("this build cannot encode JPEG XL"),
    }
}

#[test]
fn decode_rejects_unknown_magic() {
    match decode(b"GIF89a....") {
        Err(Error::UnknownFormat(message)) => assert_eq!(message, "unrecognised magic bytes"),
        _ => panic!("unknown bytes must be rejected"),
    }
}

#[test]
fn convert_then_decode_keeps_size_and_format() {
    let image = create_test_image(16, 8);
    let pipeline = PipelineOptions {
        format: Format::Qoi,
        quality: 80,
        effort: None,
        png_palette: PngPaletteMode::Off,
        jxl_encoder: JxlEncoderPreference::Libjxl,
        threads: None,
        resize: None,
        crop: None,
        extend: None,
        fill_color: None,
    };
    let result = convert(&image, &pipeline).expect("convert failed");
    assert_eq!((result.format, result.width, result.height), (Format::Qoi, 16, 8));
    let (decoded, format) = decode(&result.data).expect("decode failed");
    assert_eq!(format, Format::Qoi);
    assert_eq!(decoded.data, image.data);
}

#[test]
fn optimize_qoi_is_lossless() {
    let image = create_test_image(9, 7);
    let pipeline = PipelineOptions {
        format: Format::Qoi,
        quality: 80,
        effort: None,
        png_palette: PngPaletteMode::Off,
        jxl_encoder: JxlEncoderPreference::Libjxl,
        threads: None,
        resize: None,
        crop: None,
        extend: None,
        fill_color: None,
    };
    let encoded = convert(&image, &pipeline).expect("convert failed").data;
    let optimized = optimize(&encoded, 50).expect("optimize failed");
    assert_eq!(optimized.format, Format::Qoi);
    let (decoded, _) = decode(&optimized.data).expect("decode failed");
    assert_eq!(decoded.data, image.data);
}

#[test]
fn optimize_png_keeps_format() {
    let image = create_test_image(12, 12);
    let png = slimg::codec::png::PngCodec.encode(&image, &EncodeOptions::default()).expect("encode failed");
    let result = optimize_with_options(&png, EncodeOptions { quality: 75, effort: Some(75), ..EncodeOptions::default() })
        .expect("optimize failed");
    assert_eq!((result.format, result.width, result.height), (Format::Png, 12, 12));
    let (decoded, _) = decode(&result.data).expect("decode failed");
    assert_eq!(decoded.data, image.data, "optimizing a PNG keeps every pixel");
}

#[test]
fn optimize_refuses_what_the_codec_refuses() {
    let image = create_test_image(8, 8);
    let webp = slimg::codec::webp::WebPCodec.encode(&image, &EncodeOptions::default()).expect("encode failed");
    match optimize(&webp, 150) {
        Err(Error::Encode(message)) => {
            assert_eq!(message, "the webp encoder does not accept this image with these options")
        },
        _ => panic!("quality above 100 is refused by the simple WebP encoder"),
    }
}

/// A stand-in for libjxl that returns a bare codestream signature.
fn stand_in_libjxl(_image: &ImageData, _options: &EncodeOptions) -> Result<Vec<u8>, Error> {
    Ok(vec![0xFF, 0x0A])
}

#[test]
fn diagnostics_report_disabled_gjxl_feature() {
    let outcome = encode_with_diagnostics(&create_test_image(8, 8), &options(80), stand_in_libjxl)
        .expect("libjxl fallback should encode");
    assert_eq!(outcome.backend, JxlEncodeBackend::Libjxl);
    assert_eq!(outcome.fallback_reason, Some(JxlFallbackReason::FeatureDisabled));
    assert_eq!(outcome.data, vec![0xFF, 0x0A]);
}

#[test]
fn explicit_libjxl_preference_is_not_a_fallback() {
    let mut libjxl_options = options(80);
    libjxl_options.jxl_encoder = JxlEncoderPreference::Libjxl;
    let outcome = encode_with_diagnostics(&create_test_image(8, 8), &libjxl_options, stand_in_libjxl)
        .expect("explicit libjxl encode should succeed");
    assert_eq!(outcome.backend, JxlEncodeBackend::Libjxl);
    assert_eq!(outcome.fallback_reason, None);
}

#[test]
fn libjxl_errors_pass_through() {
    let failing = |_: &ImageData, _: &EncodeOptions| -> Result<Vec<u8>, Error> { Err(Error::Encode("boom".to_string())) };
    match encode_with_diagnostics(&create_test_image(4, 4), &options(80), failing) {
        Err(Error::Encode(message)) => assert_eq!(message, "boom"),
        _ => panic!("libjxl's error must come back unchanged"),
    }
}

#[test]
fn alpha_is_reported_past_the_color_tracking_limit() {
    let mut data = Vec::with_capacity(4 * 1_000_002);
    for i in 0..1_000_001u32 {
        data.extend_from_slice(&[(i & 0xFF) as u8, ((i >> 8) & 0xFF) as u8, ((i >> 16) & 0xFF) as u8, 255]);
    }
    data.extend_from_slice(&[0, 0, 0, 0]);
    let stats = analyze_palette_suitability(&ImageData::new(1_000_002, 1, data));
    assert!(stats.unique_color_count_exceeded);
    assert_eq!(stats.recommendation, PaletteRecommendation::Off);
    assert!(stats.has_alpha, "the transparent pixel after the cut-off counts");
}

#[test]
fn optimized_files_are_kept_only_when_smaller() {
    assert!(keep_optimized(100, 99, false));
    assert!(!keep_optimized(100, 100, false));
    assert!(keep_optimized(100, 150, true));
}
