//! The daemon's own life: its lock, and waiting for it to come up.
pub mod server;
