//! Core of a preemptive, fixed-priority real-time kernel: the task manager,
//! the priority-ceiling resource protocol and broadcast messaging, kept as
//! explicit state so that every transition carries a proved contract.

pub mod config;
pub mod errors;
pub mod helper;
pub mod kernel;
pub mod system;
