//! Core of an interactive job console: a keypress table that turns operator
//! input into commands, a UI session that appends to a display log and sends
//! each command over a channel, a scheduler that consumes commands in order
//! and decides which job to launch, and the two job kinds' step plans.
//!
//! Terminal rendering, raw-mode handling, the async runtime and the tracing
//! sink are hosts around this crate; everything they decide is decided here,
//! on plain values, and proved.

pub mod channel;
pub mod command;
pub mod job;
pub mod keymap;
pub mod scheduler;
pub mod ui;
