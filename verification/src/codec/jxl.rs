use vstd::prelude::*;

use super::avif::clamped_effort;
use super::{Codec, EncodeOptions, ImageData, JxlEncoderPreference};
use crate::error::{Error, Result};
use crate::format::Format;
use crate::palette::{alpha_below_opaque, pixel_alpha};
use crate::text::{decimal, spec_decimal};

verus! {

/// Encoder implementation that produced a JPEG XL codestream.
#[derive(Debug, Clone, Copy, PartialEq, Eq, Structural)]
pub enum JxlEncodeBackend {
    /// The experimental GJXL C API.
    Gjxl,
    /// The established libjxl encoder.
    Libjxl,
}

/// Why an encode used libjxl instead of the optional GJXL backend.
#[derive(Debug, Clone, PartialEq, Eq)]
pub enum JxlFallbackReason {
    /// Slimg was built without the experimental GJXL feature.
    FeatureDisabled,
    /// Quality 100 requests lossless output, which GJXL does not support yet.
    Lossless,
    /// The image contains at least one non-opaque alpha sample.
    NonOpaqueAlpha,
    /// A thread budget was requested, which GJXL cannot currently honor.
    ThreadBudget,
    /// GJXL reported that the requested capability is unsupported.
    Unsupported(String),
    /// GJXL could not initialize its requested execution backend.
    Unavailable(String),
}

/// Encoded JPEG XL bytes together with backend-selection diagnostics.
#[derive(Debug, Clone, PartialEq, Eq)]
pub struct JxlEncodeOutcome {
    /// Encoded JPEG XL bytes.
    pub data: Vec<u8>,
    /// Encoder that produced `data`.
    pub backend: JxlEncodeBackend,
    /// Reason libjxl was selected instead of an enabled GJXL backend.
    pub fallback_reason: Option<JxlFallbackReason>,
}

/// Whether this build includes the experimental GJXL encoder.
pub fn gjxl_backend_compiled() -> (r: bool)
    ensures
        !r,
{
    false
}

/// Text of the error reported for a JPEG XL encode: this build does not
/// link libjxl.
pub open spec fn libjxl_encode_missing() -> Seq<char> {
    "JPEG XL encoding requires libjxl, which this build does not include"@
}

/// JXL codec backed by libjxl for decoding and by the selected encoder route.
pub struct JxlCodec;

/// libjxl's effort (1..=10) for an effort value: effort 0 is libjxl effort
/// 1, effort 50 its default 7 and effort 100 its maximum 10.
pub open spec fn spec_jxl_effort(effort: u8) -> int {
    let e = clamped_effort(effort);
    if e <= 50 {
        1 + (e * 6 + 25) / 50
    } else {
        7 + ((e - 50) * 3 + 25) / 50
    }
}

/// Map an effort value (0..=100) onto libjxl's effort scale (1..=10).
pub fn effort_to_jxl_effort(effort: u8) -> (r: u8)
    ensures
        r == spec_jxl_effort(effort),
{
    let effort: u16 = if effort > 100 { 100 } else { effort as u16 };
    if effort <= 50 {
        (1 + (effort * 6 + 25) / 50) as u8
    } else {
        (7 + ((effort - 50) * 3 + 25) / 50) as u8
    }
}

/// The libjxl effort always lies in libjxl's range and grows with effort.
pub proof fn jxl_effort_in_range_and_monotone(a: u8, b: u8)
    ensures
        1 <= spec_jxl_effort(a) <= 10,
        a <= b ==> spec_jxl_effort(a) <= spec_jxl_effort(b),
        spec_jxl_effort(0) == 1,
        spec_jxl_effort(50) == 7,
        spec_jxl_effort(100) == 10,
{
}

/// The error `validate_image_layout` reports, if any: the RGBA layout must
/// fit in memory, both sides must be nonzero, and the buffer must hold
/// exactly `width * height * 4` bytes.
pub open spec fn layout_error(width: u32, height: u32, len: nat) -> Option<Seq<char>> {
    let expected = width * height * 4;
    if expected > usize::MAX {
        Some("JXL image dimensions overflow the RGBA layout"@)
    } else if width == 0 || height == 0 {
        Some("JXL image dimensions must be nonzero"@)
    } else if len != expected {
        Some(
            "JXL image data length mismatch: expected "@ + spec_decimal(expected as nat) + " bytes, got "@
                + spec_decimal(len),
        )
    } else {
        None
    }
}

/// Check that the image's pixel buffer matches its dimensions.
pub fn validate_image_layout(image: &ImageData) -> (r: Result<()>)
    ensures
        match layout_error(image.width, image.height, image.data@.len()) {
            None => r is Ok,
            Some(message) => r matches Err(Error::Encode(m)) && m@ == message,
        },
{
    let expected = match (image.width as usize).checked_mul(image.height as usize) {
        Some(pixels) => pixels.checked_mul(4),
        None => None,
    };
    let expected: usize = match expected {
        Some(n) => n,
        None => {
            proof {
                if image.width * image.height * 4 <= usize::MAX {
                    assert(image.width * image.height <= usize::MAX) by (nonlinear_arith)
                        requires
                            image.width * image.height * 4 <= usize::MAX,
                    ;
                }
            }
            return Err(Error::Encode(String::from_str("JXL image dimensions overflow the RGBA layout")));
        },
    };
    if image.width == 0 || image.height == 0 {
        return Err(Error::Encode(String::from_str("JXL image dimensions must be nonzero")));
    }
    let len = image.data.len();
    if len != expected {
        let message = String::from_str("JXL image data length mismatch: expected ").concat(
            decimal(expected as u64).as_str(),
        ).concat(" bytes, got ").concat(decimal(len as u64).as_str());
        return Err(Error::Encode(message));
    }
    Ok(())
}

/// The reason GJXL would not be tried for a request, if any: lossless
/// quality, a non-opaque alpha sample, or a thread budget, in that order.
pub open spec fn preflight_fallback(data: Seq<u8>, options: EncodeOptions) -> Option<JxlFallbackReason> {
    if options.quality >= 100 {
        Some(JxlFallbackReason::Lossless)
    } else if alpha_below_opaque(data, (data.len() / 4) as int) {
        Some(JxlFallbackReason::NonOpaqueAlpha)
    } else if options.threads is Some {
        Some(JxlFallbackReason::ThreadBudget)
    } else {
        None
    }
}

/// Decide whether a request must fall back to libjxl before GJXL is tried.
pub fn gjxl_preflight_fallback(image: &ImageData, options: &EncodeOptions) -> (r: Option<JxlFallbackReason>)
    ensures
        r == preflight_fallback(image.data@, *options),
{
    if options.quality >= 100 {
        return Some(JxlFallbackReason::Lossless);
    }
    let n = image.data.len() / 4;
    let mut i: usize = 0;
    while i < n
        invariant
            n == image.data@.len() / 4,
            image.data@.len() == image.data.len(),
            i <= n,
            options.quality < 100,
            !alpha_below_opaque(image.data@, i as int),
        decreases n - i,
    {
        assert(4 * i + 3 < image.data@.len()) by (nonlinear_arith)
            requires
                i < n,
                n == image.data@.len() / 4,
        ;
        if image.data[4 * i + 3] != 255 {
            proof {
                assert(pixel_alpha(image.data@, i as int) < 255);
                assert(alpha_below_opaque(image.data@, (image.data@.len() / 4) as int));
            }
            return Some(JxlFallbackReason::NonOpaqueAlpha);
        }
        proof {
            assert forall|j: int| 0 <= j < i + 1 implies !(#[trigger] pixel_alpha(image.data@, j) < 255) by {
                if j < i {
                    assert(!alpha_below_opaque(image.data@, i as int));
                }
            }
        }
        i = i + 1;
    }
    if options.threads.is_some() {
        return Some(JxlFallbackReason::ThreadBudget);
    }
    None
}

/// Kind of failure a GJXL encode reports.
#[derive(Debug, Clone, Copy, PartialEq, Eq, Structural)]
pub enum GjxlErrorKind {
    /// An argument was invalid.
    InvalidArgument,
    /// The requested capability is unsupported.
    Unsupported,
    /// The requested execution backend is unavailable.
    Unavailable,
    /// Memory ran out.
    OutOfMemory,
    /// The execution backend failed.
    Backend,
    /// GJXL failed internally.
    Internal,
}

/// Name of a failure kind, as its `Debug` form prints it.
pub open spec fn spec_kind_name(kind: GjxlErrorKind) -> Seq<char> {
    match kind {
        GjxlErrorKind::InvalidArgument => "InvalidArgument"@,
        GjxlErrorKind::Unsupported => "Unsupported"@,
        GjxlErrorKind::Unavailable => "Unavailable"@,
        GjxlErrorKind::OutOfMemory => "OutOfMemory"@,
        GjxlErrorKind::Backend => "Backend"@,
        GjxlErrorKind::Internal => "Internal"@,
    }
}

/// Name of a failure kind.
pub fn kind_name(kind: GjxlErrorKind) -> (r: &'static str)
    ensures
        r@ == spec_kind_name(kind),
{
    match kind {
        GjxlErrorKind::InvalidArgument => "InvalidArgument",
        GjxlErrorKind::Unsupported => "Unsupported",
        GjxlErrorKind::Unavailable => "Unavailable",
        GjxlErrorKind::OutOfMemory => "OutOfMemory",
        GjxlErrorKind::Backend => "Backend",
        GjxlErrorKind::Internal => "Internal",
    }
}

/// Outcome of trying GJXL.
pub enum GjxlAttempt {
    /// GJXL produced these bytes.
    Encoded(Vec<u8>),
    /// GJXL cannot serve the request; libjxl should encode it.
    Fallback(JxlFallbackReason),
}

/// Only an unsupported capability or an unavailable backend falls back to
/// libjxl; every other GJXL failure is an encode error.
pub fn classify_failure(kind: GjxlErrorKind, detail: String) -> (r: Result<GjxlAttempt>)
    ensures
        match kind {
            GjxlErrorKind::Unsupported => r matches Ok(GjxlAttempt::Fallback(JxlFallbackReason::Unsupported(d))) && d@ == detail@,
            GjxlErrorKind::Unavailable => r matches Ok(GjxlAttempt::Fallback(JxlFallbackReason::Unavailable(d))) && d@ == detail@,
            _ => r matches Err(Error::Encode(m)) && m@ == "GJXL "@ + spec_kind_name(kind) + ": "@ + detail@,
        },
{
    match kind {
        GjxlErrorKind::Unsupported => Ok(GjxlAttempt::Fallback(JxlFallbackReason::Unsupported(detail))),
        GjxlErrorKind::Unavailable => Ok(GjxlAttempt::Fallback(JxlFallbackReason::Unavailable(detail))),
        _ => Err(Error::Encode(String::from_str("GJXL ").concat(kind_name(kind)).concat(": ").concat(detail.as_str()))),
    }
}

/// Why libjxl encodes a request in a build without GJXL: an explicit libjxl
/// preference is no fallback; a GJXL preference falls back because the
/// feature is not compiled in.
pub open spec fn libjxl_fallback_reason(options: EncodeOptions) -> Option<JxlFallbackReason> {
    if options.jxl_encoder == JxlEncoderPreference::Libjxl {
        None
    } else {
        Some(JxlFallbackReason::FeatureDisabled)
    }
}

/// Wrap what libjxl returned, recording why GJXL was not used.
fn encode_with_libjxl(libjxl: Result<Vec<u8>>, fallback_reason: Option<JxlFallbackReason>) -> (r: Result<JxlEncodeOutcome>)
    ensures
        match libjxl {
            Ok(data) => r matches Ok(outcome) && outcome.data == data && outcome.backend == JxlEncodeBackend::Libjxl
                && outcome.fallback_reason == fallback_reason,
            Err(e) => r == Err::<JxlEncodeOutcome, Error>(e),
        },
{
    match libjxl {
        Ok(data) => Ok(JxlEncodeOutcome { data, backend: JxlEncodeBackend::Libjxl, fallback_reason }),
        Err(e) => Err(e),
    }
}

/// What `encode_with_diagnostics` reports for a valid layout, given what
/// libjxl returns for the request: libjxl's bytes with the libjxl backend
/// and the fallback reason, or libjxl's error unchanged.
pub open spec fn jxl_diagnostics_ok(options: EncodeOptions, libjxl: Result<Vec<u8>>, r: Result<JxlEncodeOutcome>) -> bool {
    match libjxl {
        Ok(data) => r matches Ok(outcome) && outcome.data == data && outcome.backend == JxlEncodeBackend::Libjxl
            && outcome.fallback_reason == libjxl_fallback_reason(options),
        Err(e) => r == Err::<JxlEncodeOutcome, Error>(e),
    }
}

/// Encode JPEG XL while reporting whether GJXL or libjxl produced the bytes.
///
/// The ordinary [`Codec::encode`] path intentionally discards this diagnostic
/// metadata. Benchmarks and experiments should use this function so a libjxl
/// fallback cannot be mistaken for a GJXL sample.
///
/// `encode_libjxl` is the libjxl encoder; it is called only for a valid
/// layout, once.
pub fn encode_with_diagnostics<F>(image: &ImageData, options: &EncodeOptions, encode_libjxl: F) -> (r: Result<JxlEncodeOutcome>) where
    F: Fn(&ImageData, &EncodeOptions) -> Result<Vec<u8>>,
    requires
        call_requires(encode_libjxl, (image, options)),
    ensures
        match layout_error(image.width, image.height, image.data@.len()) {
            Some(message) => r matches Err(Error::Encode(m)) && m@ == message,
            None => exists|libjxl: Result<Vec<u8>>|
                call_ensures(encode_libjxl, (image, options), libjxl) && #[trigger] jxl_diagnostics_ok(*options, libjxl, r),
        },
{
    match validate_image_layout(image) {
        Ok(()) => {},
        Err(e) => return Err(e),
    }
    let fallback_reason = if options.jxl_encoder == JxlEncoderPreference::Libjxl {
        None
    } else {
        Some(JxlFallbackReason::FeatureDisabled)
    };
    let libjxl = encode_libjxl(image, options);
    let ghost returned = libjxl;
    let r = encode_with_libjxl(libjxl, fallback_reason);
    proof {
        assert(jxl_diagnostics_ok(*options, returned, r));
    }
    r
}

/// The libjxl encoder of this build, which does not link libjxl: every
/// request is refused.
pub fn libjxl_unavailable(image: &ImageData, options: &EncodeOptions) -> (r: Result<Vec<u8>>)
    ensures
        r matches Err(Error::Encode(m)) && m@ == libjxl_encode_missing(),
{
    Err(Error::Encode(String::from_str("JPEG XL encoding requires libjxl, which this build does not include")))
}

/// What the JPEG XL codec reports: a malformed layout is rejected first;
/// otherwise the libjxl route is taken, which this build lacks.
pub open spec fn jxl_encode_error(width: u32, height: u32, len: nat) -> Seq<char> {
    match layout_error(width, height, len) {
        Some(message) => message,
        None => libjxl_encode_missing(),
    }
}

impl Codec for JxlCodec {
    open spec fn spec_format(&self) -> Format {
        Format::Jxl
    }

    /// libjxl decodes JPEG XL; this build does not link it.
    open spec fn decoded(&self, data: Seq<u8>) -> Option<(u32, u32, Seq<u8>)> {
        None
    }

    open spec fn decode_error(&self, data: Seq<u8>) -> Seq<char> {
        "JPEG XL decoding requires libjxl, which this build does not include"@
    }

    open spec fn encode_outcome(&self, width: u32, height: u32, rgba: Seq<u8>, options: EncodeOptions, out: Option<Seq<u8>>) -> bool {
        out is None
    }

    open spec fn encode_error_ok(&self, width: u32, height: u32, rgba: Seq<u8>, options: EncodeOptions, message: Seq<char>) -> bool {
        message == jxl_encode_error(width, height, rgba.len())
    }

    open spec fn encode_admits(&self, width: u32, height: u32, rgba: Seq<u8>, options: EncodeOptions) -> bool {
        true
    }

    fn format(&self) -> (f: Format) {
        Format::Jxl
    }

    fn decode(&self, data: &[u8]) -> (r: Result<ImageData>) {
        Err(Error::Decode(String::from_str("JPEG XL decoding requires libjxl, which this build does not include")))
    }

    /// The bytes or the error of [`encode_with_diagnostics`] with this
    /// build's libjxl encoder, without the diagnostics.
    fn encode(&self, image: &ImageData, options: &EncodeOptions) -> (r: Result<Vec<u8>>)
        ensures
            r matches Err(Error::Encode(m)) && m@ == jxl_encode_error(image.width, image.height, image.data@.len()),
    {
        let diagnostics = encode_with_diagnostics(image, options, libjxl_unavailable);
        proof {
            if layout_error(image.width, image.height, image.data@.len()) is None {
                let libjxl = choose|libjxl: Result<Vec<u8>>|
                    call_ensures(libjxl_unavailable, (image, options), libjxl) && #[trigger] jxl_diagnostics_ok(*options, libjxl, diagnostics);
            }
        }
        match diagnostics {
            Ok(outcome) => Ok(outcome.data),
            Err(e) => Err(e),
        }
    }
}

} // verus!
