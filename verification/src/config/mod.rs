//! Configuration.
pub mod settings;
