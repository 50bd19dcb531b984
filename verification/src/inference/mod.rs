//! Inference backends: which one serves a model, how it is started, and the
//! pool of running ones.
pub mod launch;
pub mod launch_laws;
pub mod logbuf;
pub mod pool;
