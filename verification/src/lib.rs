//! Coordination logic for bounded, interruptible traffic runs: target
//! validation, the stop signal, the run lifecycle and the operator's commands.

pub mod address;
pub mod command;
pub mod error;
pub mod run;
pub mod settings;
pub mod signal;
pub mod text;
pub mod worker;
