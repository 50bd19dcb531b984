//! What the command line shows: styles and the answer renderer.
pub mod block_laws;
pub mod chat;
pub mod chat_laws;
pub mod commands;
pub mod doctor;
pub mod inline_laws;
pub mod markdown_laws;
pub mod progress;
pub mod render;
pub mod render_laws;
pub mod screen_laws;
pub mod span_laws;
pub mod style;
pub mod symbol_laws;
pub mod table;
