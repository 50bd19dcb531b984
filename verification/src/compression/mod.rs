//! Conversion of downloaded weights to smaller files.
pub mod quantize;
