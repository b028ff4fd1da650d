//! Conversion of compiled Move modules between their binary (`.mv`) and
//! JSON (`.json`) encodings: format resolution, output naming and the
//! control flow of a single conversion.

pub mod conversion;
pub mod error;
pub mod format;
pub mod path_text;
pub mod source;
