//! Core logic of the MXU desktop shell: the per-instance run-log buffer,
//! path normalisation, command-line flag parsing, the autostart migration
//! state machine and the small decision functions behind the shell commands.
//!
//! Everything here is verified with Verus, except the few calls into
//! `std::path` and `regex`, whose contracts are trusted and documented where
//! they stand; I/O, process spawning and the platform calls live in the
//! companion application crate.

pub mod log_buffer;
pub mod path_norm;
pub mod text;
pub mod cli;
pub mod autostart;
pub mod types;
pub mod system;
