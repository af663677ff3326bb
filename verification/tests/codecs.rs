use slimg::codec::avif::{effort_to_ravif_speed, AvifCodec};
use slimg::codec::jpeg::{jpeg_settings, JpegCodec};
use slimg::codec::png::PngCodec;
use slimg::codec::qoi::QoiCodec;
use slimg::codec::webp::{effort_to_webp_method, WebPCodec};
use slimg::codec::{
    encode_admitted, get_codec, Codec, EncodeOptions, ImageData, JxlEncoderPreference, PngPaletteMode,
};
use slimg::error::Error;
use slimg::format::Format;

fn create_test_image(width: u32, height: u32) -> ImageData {
    let size = (width * height * 4) as usize;
    let mut data = vec![0u8; size];
    for y in 0..height {
        for x in 0..width {
            let i = ((y * width + x) * 4) as usize;
            data[i] = (x * 255 / width) as u8; // R
            data[i + 1] = (y * 255 / height) as u8; // G
            data[i + 2] = 128; // B
            data[i + 3] = 255; // A
        }
    }
    ImageData::new(width, height, data)
}

fn options(quality: u8) -> EncodeOptions {
    EncodeOptions {
        quality,
        effort: None,
        png_palette: Default::default(),
        jxl_encoder: Default::default(),
        threads: None,
    }
}

#[test]
fn image_data_to_rgb() {
    // 2x1 image: red pixel (255,0,0,255) and green pixel (0,255,0,128)
    let data = vec![255, 0, 0, 255, 0, 255, 0, 128];
    let img = ImageData::new(2, 1, data);

    let rgb = img.to_rgb();
    assert_eq!(rgb, vec![255, 0, 0, 0, 255, 0]);
}

#[test]
fn encode_options_default() {
    let opts = EncodeOptions::default();
    assert_eq!(opts.quality, 80);
    assert_eq!(opts.effort, None);
    assert_eq!(opts.png_palette, PngPaletteMode::Off);
    assert_eq!(opts.jxl_encoder, JxlEncoderPreference::Libjxl);
    assert_eq!(opts.threads, None);
}

#[test]
fn image_data_dimensions() {
    let data = vec![0u8; 4 * 3 * 2]; // 3x2 image
    let img = ImageData::new(3, 2, data);
    assert_eq!(img.width, 3);
    assert_eq!(img.height, 2);
    assert_eq!(img.data.len(), 24);
}

#[test]
fn get_codec_routes_each_format() {
    for format in [Format::Jpeg, Format::Png, Format::WebP, Format::Avif, Format::Jxl, Format::Qoi] {
        assert_eq!(get_codec(format).format(), format);
    }
}

// ---- AVIF ----

#[test]
fn encode_produces_valid_avif() {
    let codec = AvifCodec;
    let image = create_test_image(64, 48);
    let encoded = codec.encode(&image, &options(80)).expect("encode failed");

    // Verify AVIF container: bytes 4-7 should be "ftyp"
    assert!(encoded.len() >= 8, "encoded data too short: {} bytes", encoded.len());
    assert_eq!(&encoded[4..8], b"ftyp", "missing AVIF ftyp box");
}

#[test]
fn encode_and_decode_returns_rgba() {
    let codec = AvifCodec;
    let image = create_test_image(64, 48);
    let encoded = codec.encode(&image, &options(80)).expect("encode failed");
    let decoded = codec.decode(&encoded).expect("decode failed");

    assert_eq!(decoded.width, image.width);
    assert_eq!(decoded.height, image.height);
    assert_eq!(decoded.data.len(), (64 * 48 * 4) as usize);
}

#[test]
fn encode_accepts_zero_quality() {
    let codec = AvifCodec;
    let image = create_test_image(64, 48);
    let encoded = codec.encode(&image, &options(0)).expect("encode failed");
    assert!(!encoded.is_empty());
}

#[test]
fn avif_decode_invalid_data_is_decode_error() {
    let result = AvifCodec.decode(b"not an avif");
    assert!(matches!(result, Err(Error::Decode(_))));
}

#[test]
fn ravif_speed_mapping_exact_values() {
    assert_eq!(effort_to_ravif_speed(0), 10);
    assert_eq!(effort_to_ravif_speed(25), 8);
    assert_eq!(effort_to_ravif_speed(50), 6);
    assert_eq!(effort_to_ravif_speed(75), 3);
    assert_eq!(effort_to_ravif_speed(100), 1);
    assert_eq!(effort_to_ravif_speed(255), 1);
}

#[test]
fn avif_admits_only_what_ravif_accepts() {
    let image = create_test_image(4, 4);
    assert!(encode_admitted(Format::Avif, &image, &options(100)));
    assert!(!encode_admitted(Format::Avif, &image, &options(101)));
    let mut zero_threads = options(80);
    zero_threads.threads = Some(0);
    assert!(!encode_admitted(Format::Avif, &image, &zero_threads));
}

// ---- JPEG ----

#[test]
fn mod_encode_and_decode_roundtrip() {
    let codec = JpegCodec;
    let original = create_test_image(64, 48);
    let encoded = codec.encode(&original, &options(90)).expect("encode failed");

    assert!(encoded.len() >= 3, "encoded data too short: {} bytes", encoded.len());
    assert_eq!(&encoded[..3], &[0xFF, 0xD8, 0xFF], "missing JPEG magic bytes");

    let decoded = codec.decode(&encoded).expect("decode failed");
    assert_eq!(decoded.width, original.width);
    assert_eq!(decoded.height, original.height);
    assert_eq!(decoded.data.len(), (decoded.width * decoded.height * 4) as usize);
}

#[test]
fn encode_produces_smaller_at_lower_quality() {
    let codec = JpegCodec;
    let image = create_test_image(128, 96);

    let high = codec.encode(&image, &options(95)).expect("encode q95 failed");
    let low = codec.encode(&image, &options(30)).expect("encode q30 failed");

    assert!(
        low.len() < high.len(),
        "low quality ({} bytes) should be smaller than high quality ({} bytes)",
        low.len(),
        high.len(),
    );
}

#[test]
fn mod_decode_invalid_data_returns_error() {
    let codec = JpegCodec;
    let result = codec.decode(b"not a jpeg");
    assert!(result.is_err(), "decoding invalid data should fail");
}

#[test]
fn jpeg_empty_image_is_encode_error() {
    let image = ImageData::new(0, 5, Vec::new());
    match JpegCodec.encode(&image, &options(80)) {
        Err(Error::Encode(message)) => {
            assert_eq!(message, "mozjpeg panicked: libjpeg fatal error: Empty JPEG image (DNL not supported)")
        },
        other => panic!("unexpected result: {:?}", other.map(|b| b.len())),
    }
}

#[test]
fn jpeg_oversized_image_is_encode_error() {
    let image = ImageData::new(65501, 1, vec![0u8; 65501 * 4]);
    match JpegCodec.encode(&image, &options(80)) {
        Err(Error::Encode(message)) => assert_eq!(
            message,
            "mozjpeg panicked: libjpeg fatal error: Maximum supported image dimension is 65500 pixels"
        ),
        other => panic!("unexpected result: {:?}", other.map(|b| b.len())),
    }
}

#[test]
fn jpeg_settings_follow_effort_thresholds() {
    let none = jpeg_settings(None);
    assert!(none.progressive && none.optimize_scans && none.optimize_coding);
    let low = jpeg_settings(Some(24));
    assert!(!low.progressive && !low.optimize_scans && !low.optimize_coding);
    let mid = jpeg_settings(Some(25));
    assert!(mid.progressive && !mid.optimize_scans && mid.optimize_coding);
    let high = jpeg_settings(Some(50));
    assert!(high.progressive && high.optimize_scans && high.optimize_coding);
}

#[test]
fn jpeg_effort_changes_the_encoding() {
    let image = create_test_image(64, 48);
    let mut fast = options(80);
    fast.effort = Some(0);
    let baseline = JpegCodec.encode(&image, &fast).expect("encode failed");
    let optimized = JpegCodec.encode(&image, &options(80)).expect("encode failed");
    assert_eq!(&baseline[..3], &[0xFF, 0xD8, 0xFF]);
    assert_ne!(baseline, optimized);
}

// ---- PNG ----

#[test]
fn png_encode_and_decode_roundtrip() {
    let codec = PngCodec;
    let original = create_test_image(64, 48);
    let encoded = codec.encode(&original, &options(90)).expect("encode failed");

    assert!(encoded.len() >= 4, "encoded data too short: {} bytes", encoded.len());
    assert_eq!(&encoded[..4], &[0x89, 0x50, 0x4E, 0x47], "missing PNG magic bytes");

    let decoded = codec.decode(&encoded).expect("decode failed");
    assert_eq!(decoded.width, original.width);
    assert_eq!(decoded.height, original.height);
    assert_eq!(decoded.data, original.data, "PNG should be lossless");
}

#[test]
fn png_decode_invalid_data_returns_error() {
    let codec = PngCodec;
    let result = codec.decode(b"not a png");
    assert!(result.is_err(), "decoding invalid data should fail");
}

#[test]
fn palette_encode_roundtrips_low_color_image() {
    let codec = PngCodec;
    let original = ImageData::new(
        2,
        2,
        vec![255, 0, 0, 255, 255, 0, 0, 255, 0, 0, 255, 255, 0, 0, 255, 255],
    );
    let options = EncodeOptions {
        quality: 90,
        effort: None,
        png_palette: PngPaletteMode::On,
        jxl_encoder: Default::default(),
        threads: None,
    };

    let encoded = codec.encode(&original, &options).expect("encode failed");
    let decoded = codec.decode(&encoded).expect("decode failed");

    assert_eq!(decoded.data, original.data);
}

// ---- QOI ----

#[test]
fn qoi_encode_and_decode_roundtrip() {
    let codec = QoiCodec;
    let original = create_test_image(64, 48);
    let encoded = codec.encode(&original, &options(90)).expect("encode failed");

    // Verify QOI magic bytes "qoif"
    assert!(encoded.len() >= 4, "encoded data too short: {} bytes", encoded.len());
    assert_eq!(&encoded[..4], b"qoif", "missing QOI magic bytes");

    // Decode back and verify lossless roundtrip
    let decoded = codec.decode(&encoded).expect("decode failed");
    assert_eq!(decoded.width, original.width);
    assert_eq!(decoded.height, original.height);
    assert_eq!(decoded.data, original.data, "QOI should be lossless");
}

#[test]
fn qoi_roundtrip_keeps_transparency() {
    let original = ImageData::new(2, 1, vec![10, 20, 30, 0, 40, 50, 60, 128]);
    let encoded = QoiCodec.encode(&original, &options(80)).expect("encode failed");
    let decoded = QoiCodec.decode(&encoded).expect("decode failed");
    assert_eq!(decoded.data, original.data);
}

#[test]
fn qoi_decode_invalid_data_is_decode_error() {
    assert!(matches!(QoiCodec.decode(b"qoif"), Err(Error::Decode(_))));
}

// ---- WebP ----

#[test]
fn webp_encode_and_decode_roundtrip() {
    let codec = WebPCodec;
    let original = create_test_image(64, 48);
    let encoded = codec.encode(&original, &options(90)).expect("encode failed");

    // Decode back and verify dimensions
    let decoded = codec.decode(&encoded).expect("decode failed");
    assert_eq!(decoded.width, original.width);
    assert_eq!(decoded.height, original.height);
    assert_eq!(decoded.data.len(), (decoded.width * decoded.height * 4) as usize);
}

#[test]
fn lower_quality_produces_smaller_file() {
    let codec = WebPCodec;
    let image = create_test_image(128, 96);

    let high = codec.encode(&image, &options(95)).expect("encode q95 failed");
    let low = codec.encode(&image, &options(20)).expect("encode q20 failed");

    assert!(
        low.len() < high.len(),
        "low quality ({} bytes) should be smaller than high quality ({} bytes)",
        low.len(),
        high.len(),
    );
}

#[test]
fn webp_effort_path_encodes_and_decodes() {
    let image = create_test_image(32, 16);
    let mut opts = options(75);
    opts.effort = Some(100);
    let encoded = WebPCodec.encode(&image, &opts).expect("encode failed");
    assert_eq!(&encoded[..4], b"RIFF");
    let decoded = WebPCodec.decode(&encoded).expect("decode failed");
    assert_eq!((decoded.width, decoded.height), (32, 16));
}

#[test]
fn webp_effort_path_reports_bad_quality() {
    let image = create_test_image(8, 8);
    let mut opts = options(150);
    opts.effort = Some(50);
    match WebPCodec.encode(&image, &opts) {
        Err(Error::Encode(message)) => assert!(message.starts_with("webp encode: ")),
        other => panic!("unexpected result: {:?}", other.map(|b| b.len())),
    }
}

#[test]
fn webp_method_mapping_exact_values() {
    assert_eq!(effort_to_webp_method(0), 0);
    assert_eq!(effort_to_webp_method(25), 2);
    assert_eq!(effort_to_webp_method(50), 4);
    assert_eq!(effort_to_webp_method(75), 5);
    assert_eq!(effort_to_webp_method(100), 6);
}

#[test]
fn webp_simple_encoder_admits_only_valid_sizes() {
    let image = create_test_image(4, 4);
    assert!(encode_admitted(Format::WebP, &image, &options(100)));
    assert!(!encode_admitted(Format::WebP, &image, &options(101)));
    let empty = ImageData::new(0, 0, Vec::new());
    assert!(!encode_admitted(Format::WebP, &empty, &options(80)));
    let mut with_effort = options(80);
    with_effort.effort = Some(10);
    assert!(encode_admitted(Format::WebP, &empty, &with_effort));
}

#[test]
fn png_auto_mode_keeps_low_color_images_exact() {
    let mut data = Vec::new();
    for i in 0..(64 * 48) {
        if i % 3 == 0 {
            data.extend_from_slice(&[255, 0, 0, 255]);
        } else {
            data.extend_from_slice(&[0, 0, 255, 128]);
        }
    }
    let original = ImageData::new(64, 48, data);
    let mut opts = options(80);
    opts.png_palette = PngPaletteMode::Auto;
    let encoded = PngCodec.encode(&original, &opts).expect("encode failed");
    let decoded = PngCodec.decode(&encoded).expect("decode failed");
    assert_eq!(decoded.data, original.data);
}

#[test]
fn png_on_mode_reports_quantizer_refusal() {
    // A full gradient cannot reach imagequant's minimum quality of 85.
    let original = create_test_image(64, 48);
    let mut opts = options(80);
    opts.png_palette = PngPaletteMode::On;
    match PngCodec.encode(&original, &opts) {
        Err(Error::Encode(message)) => assert!(message.starts_with("imagequant quantize: ")),
        other => panic!("unexpected result: {:?}", other.map(|b| b.len())),
    }
}

#[test]
fn png_on_mode_quantizes_many_colors() {
    // 512 colors that differ in one step of green quantize well into 256.
    let mut data = Vec::new();
    for i in 0..(64 * 48u32) {
        data.extend_from_slice(&[(i % 256) as u8, ((i / 256) % 2) as u8, 40, 255]);
    }
    let original = ImageData::new(64, 48, data);
    let mut opts = options(80);
    opts.png_palette = PngPaletteMode::On;
    let encoded = PngCodec.encode(&original, &opts).expect("encode failed");
    assert_eq!(&encoded[..4], &[0x89, 0x50, 0x4E, 0x47]);
    let decoded = PngCodec.decode(&encoded).expect("decode failed");
    assert_eq!((decoded.width, decoded.height), (64, 48));
}

#[test]
fn qoi_header_too_large_for_memory_is_decode_error() {
    let mut data = b"qoif".to_vec();
    data.extend_from_slice(&0x8000_0000u32.to_be_bytes());
    data.extend_from_slice(&0x8000_0000u32.to_be_bytes());
    data.extend_from_slice(&[4, 0]);
    data.extend_from_slice(&[0, 0, 0, 0, 0, 0, 0, 1]);
    match QoiCodec.decode(&data) {
        Err(Error::Decode(message)) => assert_eq!(message, "qoi decode: image size overflows memory"),
        other => panic!("unexpected result: {:?}", other.map(|i| i.width)),
    }
}

#[test]
fn webp_effort_path_reports_oversized_images() {
    let image = ImageData::new(16384, 1, vec![0u8; 16384 * 4]);
    let mut opts = options(80);
    opts.effort = Some(50);
    match WebPCodec.encode(&image, &opts) {
        Err(Error::Encode(message)) => assert_eq!(message, "webp encode: VP8_ENC_ERROR_BAD_DIMENSION"),
        other => panic!("unexpected result: {:?}", other.map(|b| b.len())),
    }
}

#[test]
fn webp_effort_path_checks_quality_before_size() {
    let image = ImageData::new(16384, 1, vec![0u8; 16384 * 4]);
    let mut opts = options(150);
    opts.effort = Some(50);
    match WebPCodec.encode(&image, &opts) {
        Err(Error::Encode(message)) => assert_eq!(message, "webp encode: VP8_ENC_ERROR_INVALID_CONFIGURATION"),
        other => panic!("unexpected result: {:?}", other.map(|b| b.len())),
    }
}

fn be_u32(bytes: &[u8], at: usize) -> u32 {
    u32::from_be_bytes([bytes[at], bytes[at + 1], bytes[at + 2], bytes[at + 3]])
}

#[test]
fn palette_png_header_keeps_the_size() {
    let mut palette = options(90);
    palette.png_palette = PngPaletteMode::On;
    // Few colors: exact palette.
    let few = ImageData::new(3, 2, [[1u8, 2, 3, 255], [4, 5, 6, 255]].concat().repeat(3));
    let encoded = PngCodec.encode(&few, &palette).expect("encode failed");
    assert_eq!(&encoded[..8], &[137, 80, 78, 71, 13, 10, 26, 10]);
    assert_eq!(&encoded[12..16], b"IHDR");
    assert_eq!((be_u32(&encoded, 16), be_u32(&encoded, 20)), (3, 2));
    // More than 256 close colors: imagequant's palette.
    let mut data = Vec::new();
    for y in 0..15u8 {
        for x in 0..20u8 {
            data.extend_from_slice(&[x * 2, y * 2, 100, 255]);
        }
    }
    let many = ImageData::new(20, 15, data);
    let encoded = PngCodec.encode(&many, &palette).expect("encode failed");
    assert_eq!(&encoded[12..16], b"IHDR");
    assert_eq!((be_u32(&encoded, 16), be_u32(&encoded, 20)), (20, 15));
    let decoded = PngCodec.decode(&encoded).expect("decode failed");
    assert_eq!((decoded.width, decoded.height), (20, 15));
}

#[test]
fn png_decode_error_names_the_codec() {
    match PngCodec.decode(b"not a png") {
        Err(Error::Decode(message)) => assert!(message.starts_with("png decode: ")),
        _ => panic!("invalid PNG data must fail"),
    }
}
