//! A local model runner: the decisions and text formats behind its command line
//! and its daemon, verified.
pub mod api;
pub mod cli;
pub mod compression;
pub mod config;
pub mod daemon;
pub mod downloader;
pub mod error;
pub mod gpu;
pub mod inference;
pub mod number;
pub mod paths;
pub mod platform;
pub mod registry;
pub mod setup;
pub mod setup_laws;
pub mod text;
pub mod text_laws;
pub mod time;
