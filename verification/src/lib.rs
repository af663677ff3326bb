//! Image conversion and optimization: format detection, codec routing,
//! palette analysis, encoder tuning and batch planning.
pub mod codec;
pub mod color;
pub mod crop;
pub mod error;
pub mod exec;
pub mod extend;
pub mod format;
pub mod palette;
pub mod pipeline;
pub mod resize;
pub mod text;
