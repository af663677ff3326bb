use vstd::prelude::*;

verus! {

/// Image formats understood by the library.
#[derive(Clone, Copy, Debug, PartialEq, Eq, Hash, Structural)]
pub enum Format {
    Jpeg,
    Png,
    WebP,
    Avif,
    Jxl,
    Qoi,
}

/// `data` starts with the JPEG start-of-image marker followed by a marker byte.
pub open spec fn is_jpeg_signature(d: Seq<u8>) -> bool {
    d.len() >= 3 && d[0] == 0xFF && d[1] == 0xD8 && d[2] == 0xFF
}

/// `data` starts with the first four bytes of the PNG signature.
pub open spec fn is_png_signature(d: Seq<u8>) -> bool {
    d.len() >= 4 && d[0] == 0x89 && d[1] == 0x50 && d[2] == 0x4E && d[3] == 0x47
}

/// `data` is a RIFF container whose form type is `WEBP`.
pub open spec fn is_webp_signature(d: Seq<u8>) -> bool {
    &&& d.len() >= 12
    &&& d[0] == 0x52 && d[1] == 0x49 && d[2] == 0x46 && d[3] == 0x46
    &&& d[8] == 0x57 && d[9] == 0x45 && d[10] == 0x42 && d[11] == 0x50
}

/// `data` is an ISO-BMFF file whose `ftyp` box names the `avif` or `avis` brand.
pub open spec fn is_avif_signature(d: Seq<u8>) -> bool {
    &&& d.len() >= 12
    &&& d[4] == 0x66 && d[5] == 0x74 && d[6] == 0x79 && d[7] == 0x70
    &&& d[8] == 0x61 && d[9] == 0x76 && d[10] == 0x69
    &&& (d[11] == 0x66 || d[11] == 0x73)
}

/// `data` is a bare JPEG XL codestream or a JPEG XL container.
pub open spec fn is_jxl_signature(d: Seq<u8>) -> bool {
    ||| (d.len() >= 2 && d[0] == 0xFF && d[1] == 0x0A)
    ||| (d.len() >= 8 && d[0] == 0x00 && d[1] == 0x00 && d[2] == 0x00 && d[3] == 0x0C
        && d[4] == 0x4A && d[5] == 0x58 && d[6] == 0x4C && d[7] == 0x20)
}

/// `data` starts with the QOI magic `qoif`.
pub open spec fn is_qoi_signature(d: Seq<u8>) -> bool {
    d.len() >= 4 && d[0] == 0x71 && d[1] == 0x6F && d[2] == 0x69 && d[3] == 0x66
}

/// Whether `d` carries the signature of format `f`.
pub open spec fn has_signature(d: Seq<u8>, f: Format) -> bool {
    match f {
        Format::Jpeg => is_jpeg_signature(d),
        Format::Png => is_png_signature(d),
        Format::WebP => is_webp_signature(d),
        Format::Avif => is_avif_signature(d),
        Format::Jxl => is_jxl_signature(d),
        Format::Qoi => is_qoi_signature(d),
    }
}

/// The format detected from leading bytes: signatures are tried in the
/// order JPEG, PNG, WebP, AVIF, JPEG XL, QOI and the first match wins.
pub open spec fn detected_format(d: Seq<u8>) -> Option<Format> {
    if is_jpeg_signature(d) {
        Some(Format::Jpeg)
    } else if is_png_signature(d) {
        Some(Format::Png)
    } else if is_webp_signature(d) {
        Some(Format::WebP)
    } else if is_avif_signature(d) {
        Some(Format::Avif)
    } else if is_jxl_signature(d) {
        Some(Format::Jxl)
    } else if is_qoi_signature(d) {
        Some(Format::Qoi)
    } else {
        None
    }
}

/// Formats this build encodes: all but JPEG XL.
pub open spec fn spec_can_encode(f: Format) -> bool {
    f != Format::Jxl
}

/// The usual file extension of each format.
pub open spec fn spec_extension(f: Format) -> Seq<char> {
    match f {
        Format::Jpeg => seq!['j', 'p', 'g'],
        Format::Png => seq!['p', 'n', 'g'],
        Format::WebP => seq!['w', 'e', 'b', 'p'],
        Format::Avif => seq!['a', 'v', 'i', 'f'],
        Format::Jxl => seq!['j', 'x', 'l'],
        Format::Qoi => seq!['q', 'o', 'i'],
    }
}

impl Format {
    /// Detect the format of encoded image bytes from their signature.
    pub fn from_magic_bytes(data: &[u8]) -> (r: Option<Format>)
        ensures
            r == detected_format(data@),
    {
        let n = data.len();
        if n >= 3 && data[0] == 0xFF && data[1] == 0xD8 && data[2] == 0xFF {
            Some(Format::Jpeg)
        } else if n >= 4 && data[0] == 0x89 && data[1] == 0x50 && data[2] == 0x4E && data[3]
            == 0x47 {
            Some(Format::Png)
        } else if n >= 12 && data[0] == 0x52 && data[1] == 0x49 && data[2] == 0x46 && data[3]
            == 0x46 && data[8] == 0x57 && data[9] == 0x45 && data[10] == 0x42 && data[11]
            == 0x50 {
            Some(Format::WebP)
        } else if n >= 12 && data[4] == 0x66 && data[5] == 0x74 && data[6] == 0x79 && data[7]
            == 0x70 && data[8] == 0x61 && data[9] == 0x76 && data[10] == 0x69 && (data[11]
            == 0x66 || data[11] == 0x73) {
            Some(Format::Avif)
        } else if (n >= 2 && data[0] == 0xFF && data[1] == 0x0A) || (n >= 8 && data[0] == 0x00
            && data[1] == 0x00 && data[2] == 0x00 && data[3] == 0x0C && data[4] == 0x4A
            && data[5] == 0x58 && data[6] == 0x4C && data[7] == 0x20) {
            Some(Format::Jxl)
        } else if n >= 4 && data[0] == 0x71 && data[1] == 0x6F && data[2] == 0x69 && data[3]
            == 0x66 {
            Some(Format::Qoi)
        } else {
            None
        }
    }

    /// Whether the library can encode images into this format: every
    /// format but JPEG XL, whose encoder (libjxl) this build does not link.
    pub fn can_encode(&self) -> (r: bool)
        ensures
            r == spec_can_encode(*self),
    {
        match self {
            Format::Jxl => false,
            _ => true,
        }
    }

    /// File extension (without the dot) used for this format.
    pub fn extension(&self) -> (r: &'static str)
        ensures
            r@ == spec_extension(*self),
    {
        match self {
            Format::Jpeg => {
                proof { reveal_strlit("jpg"); }
                "jpg"
            },
            Format::Png => {
                proof { reveal_strlit("png"); }
                "png"
            },
            Format::WebP => {
                proof { reveal_strlit("webp"); }
                "webp"
            },
            Format::Avif => {
                proof { reveal_strlit("avif"); }
                "avif"
            },
            Format::Jxl => {
                proof { reveal_strlit("jxl"); }
                "jxl"
            },
            Format::Qoi => {
                proof { reveal_strlit("qoi"); }
                "qoi"
            },
        }
    }
}

/// Signatures never mislead: a detected format's signature is present, and
/// an input carrying no known signature is reported as unknown.
pub proof fn detection_is_sound(d: Seq<u8>)
    ensures
        detected_format(d) matches Some(f) ==> has_signature(d, f),
        detected_format(d) is None <==> (forall|f: Format| !#[trigger] has_signature(d, f)),
{
    if detected_format(d) is None {
        assert forall|f: Format| !#[trigger] has_signature(d, f) by {
            match f {
                Format::Jpeg => {},
                Format::Png => {},
                Format::WebP => {},
                Format::Avif => {},
                Format::Jxl => {},
                Format::Qoi => {},
            }
        }
    } else {
        let f = detected_format(d).unwrap();
        assert(has_signature(d, f));
    }
}

/// Apart from AVIF, whose leading box size is arbitrary, the signatures are
/// pairwise exclusive: bytes that carry a non-AVIF signature and no AVIF
/// signature are detected as that format whatever the order of the tries.
pub proof fn signatures_exclusive_except_avif(d: Seq<u8>, f: Format)
    requires
        f != Format::Avif,
        !is_avif_signature(d),
        has_signature(d, f),
    ensures
        detected_format(d) == Some(f),
{
}

} // verus!
