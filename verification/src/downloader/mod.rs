//! Downloads from the Hugging Face hub: what is listed, what is fetched, how a
//! transfer resumes, and the manifest that comes of it.
pub mod digest;
pub mod file_manager;
pub mod hf_api;
pub mod hub_laws;
