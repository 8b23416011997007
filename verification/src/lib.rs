//! The parts of a coding assistant that decide: how model providers are spoken
//! to and understood, and how the terminal application reacts to its user.

pub mod ids;
pub mod json;
pub mod llama_cpp;
pub mod qwen;
pub mod text;
pub mod tui;
pub mod types;
