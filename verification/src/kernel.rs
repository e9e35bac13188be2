//! Task scheduling and messaging.

pub mod message;
pub mod messaging;
pub mod task_manager;
