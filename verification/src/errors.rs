//! Errors reported by kernel calls. All of them are recoverable.

use vstd::prelude::*;

verus! {

#[derive(Clone, Copy, Debug, PartialEq, Eq, Structural)]
pub enum KernelError {
    /// A task slot or message identifier that was never created.
    DoesNotExist,
    /// A task stack too short to hold the initial context frame.
    StackTooSmall,
    /// The caller is unprivileged, is not among the tasks that share the
    /// resource, or asks for a lock that the ceiling protocol forbids.
    AccessDenied,
    /// No message identifier is left.
    LimitExceeded,
    /// A ceiling was popped from an empty ceiling stack.
    StackEmpty,
    /// A ceiling was pushed that does not exceed the system ceiling.
    CeilingViolation,
}

} // verus!
