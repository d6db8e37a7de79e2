//! A keyboard-driven file browser's core: the session state, the command
//! language, the input modes and the display projection. Filesystem access
//! stays with the caller, which hands listings and outcomes in as plain values.

pub mod error;
pub mod path;
pub mod prompt;
pub mod state;
pub mod commands;
pub mod laws;
pub mod config;
pub mod input;
pub mod render;
