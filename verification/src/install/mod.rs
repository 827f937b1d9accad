//! Installing an instance, as a machine that asks for work and takes replies.
//!
//! `machine::begin` and `machine::advance` decide; the caller performs the
//! effects in order, then does what is asked and hands the reply to `advance`,
//! until the machine asks to finish.
pub mod decisions;
pub mod doings;
pub mod laws;
pub mod machine;
pub mod order;
pub mod rules;
pub mod types;
