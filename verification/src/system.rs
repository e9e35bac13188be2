//! Resource management by the priority-ceiling protocol.

pub mod pi_stack;
pub mod resource;
