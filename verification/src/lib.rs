//! Planning, journalling and recovery of Store-based instance creation.
//!
//! The crate decides; it performs no input or output. Callers carry out the
//! file, process and window work that its functions ask for, and hand the
//! results back.
pub mod commands;
pub mod install;
pub mod journal;
pub mod locations;
pub mod messages;
pub mod naming;
pub mod paths;
pub mod plan;
pub mod recovery;
pub mod stamp;
pub mod terminal;
pub mod text;
pub mod update_check;
