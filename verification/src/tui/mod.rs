//! The state of the terminal application, and what changes it.

pub mod app;
pub mod dialog_laws;
pub mod dialogs;
pub mod effects;
pub mod event_laws;
pub mod events;
pub mod files;
pub mod input;
pub mod key_laws;
pub mod keys;
pub mod laws;
pub mod message;
pub mod model;
pub mod plan;
pub mod plan_laws;
