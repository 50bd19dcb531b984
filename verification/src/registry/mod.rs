//! The model registry: what is known of each model.
pub mod alias_map;
pub mod manifest;
pub mod modelfile;
pub mod modelfile_laws;
pub mod registry_laws;
