//! Compile-time limits of the kernel.

use vstd::prelude::*;

verus! {

/// Number of task slots. Task identifiers double as priorities and as bit
/// positions in the 32-bit task masks, so this cannot exceed 32.
pub const MAX_TASKS: usize = 32;

/// Size of each task stack, in 32-bit words.
pub const MAX_STACK_SIZE: usize = 300;

/// Shortest stack, in words, on which a task can be created.
pub const MIN_STACK_SIZE: usize = 32;

/// Words of a saved task context: eight registers that the context-switch
/// handler stores, below the eight that the processor stacks on exception
/// entry.
pub const CONTEXT_FRAME_SIZE: usize = 16;

/// Program status word of a task that has never run: only the Thumb bit set.
pub const INITIAL_XPSR: u32 = 0x0100_0000;

/// Value of `running_tid` and `next_tid` while no task has been dispatched.
pub const NO_TASK: usize = 50;

/// Address of the Interrupt Control and State Register.
pub const ICSR_ADDRESS: u32 = 0xE000_ED04;

/// The bit of that register which pends the context-switch exception.
pub const ICSR_PENDSVSET: u32 = 0x1000_0000;

/// Number of message channels that can be created.
pub const MESSAGE_COUNT: usize = 32;

/// Number of semaphores that the semaphore layer above the kernel can
/// create.
pub const SEMAPHORE_COUNT: usize = 16;

/// Reload value of the system tick timer.
pub const SYSTICK_INTERRUPT_INTERVAL: u32 = 15_000;

} // verus!
