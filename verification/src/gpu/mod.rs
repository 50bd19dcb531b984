//! GPU detection and memory fitting.
pub mod vram;
