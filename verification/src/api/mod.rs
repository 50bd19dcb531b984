//! The HTTP interface: wire types and what the handlers decide.
pub mod bodies;
pub mod disk;
pub mod health;
pub mod json;
pub mod listing;
pub mod metrics;
pub mod middleware;
pub mod parameter_laws;
pub mod pull;
pub mod pull_laws;
pub mod request_laws;
pub mod routes;
pub mod service_laws;
pub mod stream;
pub mod stream_laws;
pub mod types;
