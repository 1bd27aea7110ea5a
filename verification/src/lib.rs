//! Exports the transcript of a Codex session from the pager that shows it, by pressing the pager's
//! keys and reading the screen, and leaves the pager where it was.

pub mod capture;
pub mod export;
pub mod export_model;
pub mod failure;
pub mod fidelity;
pub mod laws;
pub mod model;
pub mod pager;
pub mod progress;
pub mod scroll;
pub mod text;
pub mod transcript;
