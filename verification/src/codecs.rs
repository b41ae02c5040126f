//! Image codecs.

pub mod failures;
pub mod svg;
pub mod webp;
pub mod tiff_chunks;
pub mod tiff_fields;
pub mod tiff;
pub mod oxipng;
pub mod pictures;
