//! Resources shared between tasks, locked by the priority-ceiling protocol.
//!
//! A resource knows the tasks that may use it; its ceiling is the highest
//! priority among them. A lock is granted only above the system ceiling, and
//! while it is held every other task that may use the resource is blocked, so
//! that the holder is never preempted by a task that would contend for it.

use vstd::prelude::*;
use crate::config::MAX_TASKS;
use crate::errors::KernelError;
use crate::helper::{bit, get_msb, has_bit, lemma_msb_is_highest, msb, subset_of, task_bit};
use crate::kernel::task_manager::{
    block_tasks, get_RT, get_blocked_mask, preempt, unblock_tasks, TaskId, TaskManager, TaskState,
};
use crate::system::pi_stack::{
    lemma_push_keeps_valid, system_ceiling_of, valid_ceilings, PiStack,
};

verus! {

/// A container that gives the tasks of `tasks_mask` exclusive access to the
/// value it holds.
#[derive(Debug)]
pub struct Resource<T: Sized> {
    /// Priority of the highest-priority task that may use the resource.
    ceiling: TaskId,
    /// The tasks that may use the resource.
    tasks_mask: u32,
    /// The tasks that the lock in force has blocked.
    blocked_mask: u32,
    /// The value that the resource guards.
    inner: T,
}

/// What a `Resource` holds, as a mathematical value.
pub struct ResourceState<T> {
    pub ceiling: u32,
    pub tasks_mask: u32,
    pub blocked_mask: u32,
    pub payload: T,
}

impl<T> ResourceState<T> {
    pub open spec fn wf(self) -> bool {
        &&& self.tasks_mask & 1 == 1
        &&& self.ceiling == msb(self.tasks_mask)
        &&& self.ceiling < MAX_TASKS
    }

    /// Whether the running task is granted the lock: it is among the tasks of
    /// the resource, and the ceiling of the resource is above the system
    /// ceiling.
    pub open spec fn grants(self, tasks: TaskState, ceilings: Seq<u32>) -> bool {
        &&& has_bit(self.tasks_mask, tasks.running_tid as u32)
        &&& self.ceiling > system_ceiling_of(ceilings)
    }

    /// The tasks that a lock by the running task blocks: all tasks of the
    /// resource but the running one.
    pub open spec fn contenders(self, tasks: TaskState) -> u32 {
        self.tasks_mask & !bit(tasks.running_tid as u32)
    }

    /// The resource once the lock is granted: it remembers which of its tasks
    /// were not blocked before.
    pub open spec fn locked(self, tasks: TaskState) -> ResourceState<T> {
        ResourceState { blocked_mask: self.tasks_mask & !tasks.blocked_mask, ..self }
    }

    /// The task state once the lock is granted.
    pub open spec fn tasks_locked(self, tasks: TaskState) -> TaskState {
        tasks.block(self.contenders(tasks))
    }

    /// Whether an unlock has any effect: the ceiling of the resource is the
    /// system ceiling.
    pub open spec fn on_top(self, ceilings: Seq<u32>) -> bool {
        self.ceiling == system_ceiling_of(ceilings)
    }

    /// The task state before the scheduling decision of an effective unlock.
    pub open spec fn tasks_unblocked(self, tasks: TaskState) -> TaskState {
        tasks.unblock(self.blocked_mask)
    }

    /// The task state after an effective unlock.
    pub open spec fn tasks_unlocked(self, tasks: TaskState) -> TaskState {
        self.tasks_unblocked(tasks).schedule()
    }
}

impl<T> View for Resource<T> {
    type V = ResourceState<T>;

    closed spec fn view(&self) -> ResourceState<T> {
        ResourceState {
            ceiling: self.ceiling,
            tasks_mask: self.tasks_mask,
            blocked_mask: self.blocked_mask,
            payload: self.inner,
        }
    }
}

impl<T: Sized> Resource<T> {
    /// Holds of every resource.
    #[verifier::type_invariant]
    pub open spec fn inv(self) -> bool {
        self@.wf()
    }

    /// A resource that holds `val` for the tasks of `tasks_mask`. The idle
    /// task is always added, so that the mask is never empty.
    pub fn new(val: T, tasks_mask: u32) -> (resource: Self)
        ensures
            resource@.wf(),
            resource@ == (ResourceState {
                ceiling: msb(tasks_mask | 1) as u32,
                tasks_mask: tasks_mask | 1,
                blocked_mask: 0,
                payload: val,
            }),
    {
        assert((tasks_mask | 1) & 1 == 1) by (bit_vector);
        let tasks_mask = tasks_mask | 1;
        Self { inner: val, tasks_mask, blocked_mask: 0, ceiling: get_msb(&tasks_mask) as TaskId }
    }

    /// Priority of the highest-priority task that may use the resource.
    pub fn ceiling(&self) -> (ceiling: TaskId)
        ensures
            ceiling == self@.ceiling,
            ceiling == msb(self@.tasks_mask),
    {
        proof {
            use_type_invariant(self);
        }
        self.ceiling
    }

    /// The tasks that may use the resource.
    pub fn tasks_mask(&self) -> (mask: u32)
        ensures
            mask == self@.tasks_mask,
    {
        self.tasks_mask
    }

    /// The tasks recorded by the last lock: those of the resource that were
    /// not blocked when it was granted.
    pub fn blocked_mask(&self) -> (mask: u32)
        ensures
            mask == self@.blocked_mask,
    {
        self.blocked_mask
    }

    /// The mask of all priorities up to `ceiling`, included.
    pub fn get_pi_mask(ceiling: TaskId) -> (mask: u32)
        ensures
            forall|i: u32| has_bit(mask, i) == (i <= ceiling && i < 32),
    {
        let mask: u32;
        if ceiling < 31 {
            assert((1u32 << (ceiling + 1) as u32) >= 1) by (bit_vector)
                requires
                    ceiling < 31,
            ;
            mask = (1u32 << (ceiling + 1)) - 1;
            assert forall|i: u32| has_bit(mask, i) == (i <= ceiling && i < 32) by {
                assert(has_bit(((1u32 << (ceiling + 1) as u32) - 1) as u32, i) == (i <= ceiling
                    && i < 32)) by (bit_vector)
                    requires
                        ceiling < 31,
                ;
            }
        } else {
            mask = 0xffffffff;
            assert forall|i: u32| has_bit(mask, i) == (i <= ceiling && i < 32) by {
                assert(has_bit(0xffffffff, i) == (i < 32)) by (bit_vector);
            }
        }
        mask
    }

    /// Locks the resource for the running task and blocks the other tasks
    /// that may use it. On refusal nothing changes.
    pub fn lock(&mut self, tm: &mut TaskManager, pi_stack: &mut PiStack) -> (r: Result<
        &T,
        KernelError,
    >)
        ensures
            r is Ok <==> old(self)@.grants(old(tm)@, old(pi_stack)@),
            r is Err ==> {
                &&& r == Err::<&T, KernelError>(KernelError::AccessDenied)
                &&& final(self)@ == old(self)@
                &&& final(tm)@ == old(tm)@
                &&& final(pi_stack)@ == old(pi_stack)@
            },
            r matches Ok(payload) ==> {
                &&& *payload == old(self)@.payload
                &&& final(self)@ == old(self)@.locked(old(tm)@)
                &&& final(tm)@ == old(self)@.tasks_locked(old(tm)@)
                &&& final(pi_stack)@ == old(pi_stack)@.push(old(self)@.ceiling)
                &&& valid_ceilings(final(pi_stack)@)
                &&& subset_of(old(self)@.contenders(old(tm)@), final(tm)@.blocked_mask)
            },
    {
        proof {
            use_type_invariant(&*self);
        }
        let curr_tid = get_RT(tm) as u32;
        let ceiling = self.ceiling;
        let pid_mask = task_bit(curr_tid);
        if self.tasks_mask & pid_mask == 0 {
            return Err(KernelError::AccessDenied);
        }
        if ceiling as i32 > pi_stack.system_ceiling() {
            pi_stack.push_stack(ceiling)?;
            self.blocked_mask = self.tasks_mask & !get_blocked_mask(tm);
            let contenders = !pid_mask & self.tasks_mask;
            proof {
                let t = self.tasks_mask;
                let b = old(tm)@.blocked_mask;
                assert(!pid_mask & t == t & !pid_mask && (t & !pid_mask) & (b | (t & !pid_mask))
                    == t & !pid_mask) by (bit_vector);
            }
            block_tasks(tm, contenders);
            return Ok(&self.inner);
        }
        Err(KernelError::AccessDenied)
    }

    /// Unlocks the resource: takes its ceiling off the ceiling stack,
    /// unblocks the tasks that the lock had blocked, and schedules. Does
    /// nothing unless the ceiling of the resource is the system ceiling.
    pub fn unlock(&self, tm: &mut TaskManager, pi_stack: &mut PiStack) -> (r: Result<
        (),
        KernelError,
    >)
        ensures
            !self@.on_top(old(pi_stack)@) ==> {
                &&& r is Ok
                &&& final(tm)@ == old(tm)@
                &&& final(pi_stack)@ == old(pi_stack)@
            },
            self@.on_top(old(pi_stack)@) ==> {
                &&& final(pi_stack)@ == old(pi_stack)@.drop_last()
                &&& final(tm)@ == self@.tasks_unlocked(old(tm)@)
                &&& (r is Err <==> self@.tasks_unblocked(old(tm)@).schedule_fails())
            },
            r is Err ==> r == Err::<(), KernelError>(KernelError::DoesNotExist),
    {
        proof {
            use_type_invariant(self);
        }
        if self.ceiling as i32 == pi_stack.system_ceiling() {
            pi_stack.pop_stack()?;
            unblock_tasks(tm, self.blocked_mask);
            preempt(tm)?;
        }
        Ok(())
    }

    /// Locks the resource, runs `handler` on the guarded value, and unlocks.
    /// Refused like `lock`, with nothing changed and `handler` not run.
    pub fn acquire<F, R>(
        &mut self,
        tm: &mut TaskManager,
        pi_stack: &mut PiStack,
        handler: F,
    ) -> (r: Result<R, KernelError>) where F: Fn(&T) -> R
        requires
            handler.requires((&old(self)@.payload,)),
        ensures
            !old(self)@.grants(old(tm)@, old(pi_stack)@) ==> {
                &&& r == Err::<R, KernelError>(KernelError::AccessDenied)
                &&& final(self)@ == old(self)@
                &&& final(tm)@ == old(tm)@
                &&& final(pi_stack)@ == old(pi_stack)@
            },
            old(self)@.grants(old(tm)@, old(pi_stack)@) ==> {
                let locked = old(self)@.locked(old(tm)@);
                let tasks = old(self)@.tasks_locked(old(tm)@);
                &&& final(self)@ == locked
                &&& final(tm)@ == locked.tasks_unlocked(tasks)
                &&& final(tm)@.active_mask == old(tm)@.active_mask
                &&& final(tm)@.blocked_mask == old(tm)@.blocked_mask
                &&& final(pi_stack)@ == old(pi_stack)@
                &&& (r is Err <==> locked.tasks_unblocked(tasks).schedule_fails())
                &&& (r is Err ==> r == Err::<R, KernelError>(KernelError::DoesNotExist))
                &&& (r matches Ok(value) ==> handler.ensures((&old(self)@.payload,), value))
            },
    {
        proof {
            use_type_invariant(&*self);
            use_type_invariant(&*tm);
            if old(self)@.grants(old(tm)@, old(pi_stack)@) {
                lemma_lock_then_unlock(old(self)@, old(tm)@, old(pi_stack)@);
            }
        }
        let value = self.lock(tm, pi_stack)?;
        let res = handler(value);
        self.unlock(tm, pi_stack)?;
        Ok(res)
    }
}

/// A lock that is followed by the unlock of the same resource leaves the
/// active set, the blocked set and the ceiling stack as they were before
/// the lock.
pub proof fn lemma_lock_then_unlock<T>(
    resource: ResourceState<T>,
    tasks: TaskState,
    ceilings: Seq<u32>,
)
    requires
        resource.wf(),
        tasks.wf(),
        resource.grants(tasks, ceilings),
    ensures
        resource.locked(tasks).on_top(ceilings.push(resource.ceiling)),
        ceilings.push(resource.ceiling).drop_last() == ceilings,
        resource.locked(tasks).tasks_unlocked(resource.tasks_locked(tasks)).active_mask
            == tasks.active_mask,
        resource.locked(tasks).tasks_unlocked(resource.tasks_locked(tasks)).blocked_mask
            == tasks.blocked_mask,
{
    let t = resource.tasks_mask;
    let b = tasks.blocked_mask;
    let c = bit(tasks.running_tid as u32);
    assert((b | (t & !c)) & !(t & !b) == b) by (bit_vector);
    assert(ceilings.push(resource.ceiling).drop_last() =~= ceilings);
}

/// Once a lock is granted, the ceiling of the resource stands on the
/// ceiling stack exactly once, on top, and the stack still increases
/// strictly from the bottom to the top.
pub proof fn lemma_locked_ceiling_once<T>(
    resource: ResourceState<T>,
    tasks: TaskState,
    ceilings: Seq<u32>,
)
    requires
        resource.wf(),
        valid_ceilings(ceilings),
        resource.grants(tasks, ceilings),
    ensures
        valid_ceilings(ceilings.push(resource.ceiling)),
        forall|i: int|
            0 <= i <= ceilings.len() ==> (ceilings.push(resource.ceiling)[i] == resource.ceiling
                <==> i == ceilings.len()),
{
    lemma_push_keeps_valid(ceilings, resource.ceiling);
}

/// While a lock is held, every task of the resource but the holder is
/// blocked; and the lock and unlock of another resource in between leave
/// them blocked.
pub proof fn lemma_contenders_stay_blocked<T, U>(
    resource: ResourceState<T>,
    tasks: TaskState,
    inner: ResourceState<U>,
)
    requires
        tasks.wf(),
    ensures
        subset_of(resource.contenders(tasks), resource.tasks_locked(tasks).blocked_mask),
        ({
            let held = resource.tasks_locked(tasks);
            let nested = inner.tasks_locked(held);
            &&& subset_of(resource.contenders(tasks), nested.blocked_mask)
            &&& subset_of(
                resource.contenders(tasks),
                inner.locked(held).tasks_unlocked(nested).blocked_mask,
            )
        }),
{
    let b = tasks.blocked_mask;
    let x = resource.contenders(tasks);
    let held = resource.tasks_locked(tasks);
    let y = inner.contenders(held);
    let t = inner.tasks_mask;
    assert(x & (b | x) == x && x & ((b | x) | y) == x && x & (((b | x) | y) & !(t & !(b | x)))
        == x) by (bit_vector);
}

/// A lock leaves its holder runnable, so that some task is.
pub proof fn lemma_lock_keeps_holder_runnable<T>(resource: ResourceState<T>, tasks: TaskState)
    requires
        tasks.wf(),
        has_bit(tasks.runnable(), tasks.running_tid as u32),
    ensures
        has_bit(resource.tasks_locked(tasks).runnable(), tasks.running_tid as u32),
        resource.tasks_locked(tasks).runnable() != 0,
{
    let a = tasks.active_mask;
    let b = tasks.blocked_mask;
    let t = resource.tasks_mask;
    let c = bit(tasks.running_tid as u32);
    assert(((a & !(b | (t & !c))) & c != 0) && a & !(b | (t & !c)) != 0) by (bit_vector)
        requires
            (a & !b) & c != 0,
    ;
}

/// Mutual exclusion by ceiling: while a lock is held and its holder stays
/// runnable, no scheduling decision dispatches another task of the
/// resource, whatever tasks are released in the meantime.
pub proof fn lemma_contenders_do_not_run<T>(
    resource: ResourceState<T>,
    tasks: TaskState,
    released: u32,
)
    requires
        tasks.wf(),
        tasks.is_running,
        has_bit(tasks.runnable(), tasks.running_tid as u32),
    ensures
        !has_bit(
            resource.contenders(tasks),
            resource.tasks_locked(tasks).release(released).running_tid as u32,
        ),
{
    let a = tasks.active_mask;
    let b = tasks.blocked_mask;
    let t = resource.tasks_mask;
    let c = bit(tasks.running_tid as u32);
    let v = resource.tasks_locked(tasks).activate(released).runnable();
    lemma_msb_is_highest(v);
    let h = msb(v) as u32;
    assert(v != 0 && (has_bit(v, h) ==> !has_bit(t & !c, h))) by (bit_vector)
        requires
            v == (a | released) & !(b | (t & !c)),
            (a & !b) & c != 0,
    ;
}

} // verus!
