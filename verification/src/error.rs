use vstd::prelude::*;

use crate::format::{Format, spec_extension};

verus! {

/// Errors reported by the library.
#[derive(Debug)]
pub enum Error {
    /// Reading or writing a file failed.
    Io(String),
    /// The input bytes could not be decoded.
    Decode(String),
    /// The image could not be encoded.
    Encode(String),
    /// The input's format was not recognised.
    UnknownFormat(String),
    /// The requested output format cannot be encoded.
    EncodingNotSupported(Format),
    /// A crop selected no pixels of the image.
    Crop(String),
    /// An extension could not produce a canvas holding the image.
    Extend(String),
    /// A resize could not produce an image of the requested size.
    Resize(String),
}

/// Result type used throughout the library.
pub type Result<T> = core::result::Result<T, Error>;

/// Human-readable text of an error.
pub open spec fn spec_message(e: Error) -> Seq<char> {
    match e {
        Error::Io(m) => "I/O error: "@ + m@,
        Error::Decode(m) => "decode error: "@ + m@,
        Error::Encode(m) => "encode error: "@ + m@,
        Error::UnknownFormat(m) => "unknown format: "@ + m@,
        Error::EncodingNotSupported(f) => "encoding not supported for format: "@ + spec_extension(
            f,
        ),
        Error::Crop(m) => "crop error: "@ + m@,
        Error::Extend(m) => "extend error: "@ + m@,
        Error::Resize(m) => "resize error: "@ + m@,
    }
}

impl Error {
    /// The error's human-readable text.
    pub fn message(&self) -> (r: String)
        ensures
            r@ == spec_message(*self),
    {
        match self {
            Error::Io(m) => String::from_str("I/O error: ").concat(m.as_str()),
            Error::Decode(m) => String::from_str("decode error: ").concat(m.as_str()),
            Error::Encode(m) => String::from_str("encode error: ").concat(m.as_str()),
            Error::UnknownFormat(m) => String::from_str("unknown format: ").concat(m.as_str()),
            Error::EncodingNotSupported(f) => String::from_str(
                "encoding not supported for format: ",
            ).concat(f.extension()),
            Error::Crop(m) => String::from_str("crop error: ").concat(m.as_str()),
            Error::Extend(m) => String::from_str("extend error: ").concat(m.as_str()),
            Error::Resize(m) => String::from_str("resize error: ").concat(m.as_str()),
        }
    }
}

} // verus!
