# slimg

Image conversion and optimization with verified logic around real codecs.

The library decodes JPEG, PNG, WebP, AVIF and QOI into RGBA pixels, encodes
them again (MozJPEG, OxiPNG with optional palette output, libwebp, ravif,
rapid-qoi), re-encodes files in their own format to shrink them, and plans
batches of conversions across the cores of a machine.

Layout:

- `src/format.rs`: format detection from magic bytes.
- `src/codec/`: one module per codec behind the `Codec` trait; the codec
  crates are called through small trusted wrappers whose results are named,
  and everything around them (tuning, palette construction, fallbacks,
  error reporting) is verified.
- `src/palette.rs`: color statistics that decide when palette PNGs pay off.
- `src/crop.rs`, `src/extend.rs`, `src/resize.rs`: region and aspect-ratio
  crops, centered padding onto a larger canvas, and resizing (the
  resampling itself is the `image` crate's Lanczos3 filter).
- `src/color.rs`: hex fill colors.
- `src/pipeline.rs`: decode, convert, optimize and output paths.
- `src/exec.rs`: batch planning and the scheduler that keeps running tasks
  within the core budget.
- `app/`: the command-line program (file I/O, threads, argument handling).

JPEG XL needs libjxl, which this build does not link. `Format::Jxl` is
therefore not encodable here (`can_encode` is false, and `convert` answers
`EncodingNotSupported`); the JPEG XL codec itself validates its input and
then reports that libjxl is missing, and decoding JPEG XL fails likewise.
The choice between the GJXL fast path and libjxl, and the diagnostics that
report it, are verified with the encoder passed in as a function.

`convert` applies the optional crop, extend (with its fill color) and
resize, in that order, before encoding. Resizing by a factor is a float
computation that the command-line program turns into an exact size.
