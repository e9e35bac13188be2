//! The task manager: task control blocks, the active and blocked masks, and
//! the scheduling decision.
//!
//! The manager is plain state. A scheduling decision that needs a context
//! switch records the task to switch to and raises `switch_pending`; the
//! caller, once its critical section ends, takes the request with
//! [`take_switch_request`] and pends the exception.

use vstd::prelude::*;
use crate::config::{
    CONTEXT_FRAME_SIZE, ICSR_PENDSVSET, INITIAL_XPSR, MAX_TASKS, MIN_STACK_SIZE, NO_TASK,
};
use crate::errors::KernelError;
use crate::helper::{
    bit, generate_task_mask, get_msb, has_bit, lemma_msb_is_highest, mask_of, msb, task_bit,
};

verus! {

pub type TaskId = u32;

/// Saved state of a task that is not on the processor.
#[derive(Clone, Copy, Debug, PartialEq, Eq, Structural)]
pub struct TaskControlBlock {
    /// Index, in the task's stack, of the lowest word of its saved context.
    pub sp: usize,
}

pub struct TaskManager {
    running_tid: usize,
    next_tid: usize,
    is_running: bool,
    tcbs: [Option<TaskControlBlock>; MAX_TASKS],
    blocked_mask: u32,
    active_mask: u32,
    is_preemptive: bool,
    switch_pending: bool,
}

/// What a `TaskManager` holds, as a mathematical value.
#[verifier::ext_equal]
pub struct TaskState {
    /// The task on the processor, or `NO_TASK` before the first dispatch.
    pub running_tid: usize,
    /// The task that the pending context switch resumes.
    pub next_tid: usize,
    pub is_running: bool,
    pub is_preemptive: bool,
    /// Tasks released and not yet exited.
    pub active_mask: u32,
    /// Tasks held back by a locked resource or a semaphore.
    pub blocked_mask: u32,
    /// One slot per priority; `Some` once the task was created.
    pub tcbs: Seq<Option<TaskControlBlock>>,
    /// A context switch was requested and not yet taken.
    pub switch_pending: bool,
}

impl TaskState {
    pub open spec fn wf(self) -> bool {
        &&& self.tcbs.len() == MAX_TASKS
        &&& self.tcbs[0] is Some
        &&& (self.running_tid < MAX_TASKS || self.running_tid == NO_TASK)
        &&& (self.next_tid < MAX_TASKS || self.next_tid == NO_TASK)
        &&& (!self.is_running ==> self.running_tid == NO_TASK)
        &&& (self.switch_pending ==> self.next_tid < MAX_TASKS
            && self.tcbs[self.next_tid as int] is Some)
    }

    /// Whether the idle task is in the active set.
    pub open spec fn idle_active(self) -> bool {
        self.active_mask & 1 == 1
    }

    /// The tasks that may run: released and not blocked.
    pub open spec fn runnable(self) -> u32 {
        self.active_mask & !self.blocked_mask
    }

    /// The task that the scheduler selects: the runnable task of highest
    /// priority, and the idle task when none is runnable.
    pub open spec fn highest(self) -> usize {
        msb(self.runnable()) as usize
    }

    /// Whether a scheduling decision would change the running task.
    pub open spec fn must_switch(self) -> bool {
        self.is_running && self.highest() != self.running_tid
    }

    /// Whether a scheduling decision selects a task that was never created.
    pub open spec fn schedule_fails(self) -> bool {
        self.must_switch() && self.tcbs[self.highest() as int] is None
    }

    /// The state after a scheduling decision.
    pub open spec fn schedule(self) -> TaskState {
        if !self.must_switch() {
            self
        } else if self.schedule_fails() {
            TaskState { running_tid: self.highest(), ..self }
        } else {
            TaskState {
                running_tid: self.highest(),
                next_tid: self.highest(),
                switch_pending: true,
                ..self
            }
        }
    }

    pub open spec fn activate(self, mask: u32) -> TaskState {
        TaskState { active_mask: self.active_mask | mask, ..self }
    }

    pub open spec fn release(self, mask: u32) -> TaskState {
        self.activate(mask).schedule()
    }

    pub open spec fn block(self, mask: u32) -> TaskState {
        TaskState { blocked_mask: self.blocked_mask | mask, ..self }
    }

    pub open spec fn unblock(self, mask: u32) -> TaskState {
        TaskState { blocked_mask: self.blocked_mask & !mask, ..self }
    }

    /// The running task leaves the active set.
    pub open spec fn retire(self) -> TaskState {
        TaskState { active_mask: self.active_mask & !bit(self.running_tid as u32), ..self }
    }

    pub open spec fn task_exit(self) -> TaskState {
        self.retire().schedule()
    }

    pub open spec fn start(self) -> TaskState {
        TaskState { is_running: true, ..self }.schedule()
    }

    pub open spec fn with_task(self, priority: usize, tcb: TaskControlBlock) -> TaskState {
        TaskState { tcbs: self.tcbs.update(priority as int, Some(tcb)), ..self }
    }

    pub open spec fn tick(self) -> TaskState {
        if self.is_preemptive {
            self.schedule()
        } else {
            self
        }
    }
}

/// The stack of a task that has never run: the top two words hold the status
/// word and the entry point, where the processor looks for them when the
/// context-switch handler returns into the task.
pub open spec fn initial_frame(stack: Seq<u32>, handler: u32) -> Seq<u32> {
    stack.update(stack.len() - 1, INITIAL_XPSR).update(stack.len() - 2, handler)
}

/// The control block of a task that has never run on a stack of `len` words.
pub open spec fn initial_tcb(len: nat) -> TaskControlBlock {
    TaskControlBlock { sp: (len - CONTEXT_FRAME_SIZE) as usize }
}

impl View for TaskManager {
    type V = TaskState;

    closed spec fn view(&self) -> TaskState {
        TaskState {
            running_tid: self.running_tid,
            next_tid: self.next_tid,
            is_running: self.is_running,
            is_preemptive: self.is_preemptive,
            active_mask: self.active_mask,
            blocked_mask: self.blocked_mask,
            tcbs: self.tcbs@,
            switch_pending: self.switch_pending,
        }
    }
}

impl TaskManager {
    /// Holds of every task manager.
    #[verifier::type_invariant]
    pub open spec fn inv(self) -> bool {
        self@.wf()
    }
}

/// Sets up the task manager and creates the idle task, of priority 0, on
/// `idle_stack`. Only the idle task is active, and nothing is dispatched
/// before `start_kernel`.
pub fn init(is_preemptive: bool, idle_stack: &mut [u32], idle_handler: u32) -> (r: Result<
    TaskManager,
    KernelError,
>)
    ensures
        r is Ok <==> old(idle_stack)@.len() >= MIN_STACK_SIZE,
        r is Err ==> r == Err::<TaskManager, KernelError>(KernelError::StackTooSmall)
            && final(idle_stack)@ == old(idle_stack)@,
        r matches Ok(tm) ==> {
            &&& tm@.wf()
            &&& tm@.running_tid == NO_TASK
            &&& tm@.next_tid == NO_TASK
            &&& !tm@.is_running
            &&& tm@.is_preemptive == is_preemptive
            &&& tm@.active_mask == 1
            &&& tm@.blocked_mask == 0
            &&& !tm@.switch_pending
            &&& tm@.tcbs == Seq::new(MAX_TASKS as nat, |i: int| None::<TaskControlBlock>).update(
                0,
                Some(initial_tcb(old(idle_stack)@.len())),
            )
            &&& final(idle_stack)@ == initial_frame(old(idle_stack)@, idle_handler)
        },
{
    let tcb = create_tcb(idle_stack, idle_handler)?;
    let mut tcbs: [Option<TaskControlBlock>; MAX_TASKS] = [None;MAX_TASKS];
    tcbs[0] = Some(tcb);
    let tm = TaskManager {
        running_tid: NO_TASK,
        next_tid: NO_TASK,
        is_running: false,
        tcbs,
        blocked_mask: 0,
        active_mask: 1,
        is_preemptive,
        switch_pending: false,
    };
    assert(tm@.tcbs =~= Seq::new(MAX_TASKS as nat, |i: int| None::<TaskControlBlock>).update(
        0,
        Some(initial_tcb(old(idle_stack)@.len())),
    ));
    Ok(tm)
}

/// Starts scheduling: from now on every scheduling decision takes effect.
/// The first one is made at once and dispatches the runnable task of highest
/// priority.
pub fn start_kernel(tm: &mut TaskManager) -> (r: Result<(), KernelError>)
    ensures
        final(tm)@ == old(tm)@.start(),
        r is Err <==> (TaskState { is_running: true, ..old(tm)@ }).schedule_fails(),
        r is Err ==> r == Err::<(), KernelError>(KernelError::DoesNotExist),
{
    proof {
        use_type_invariant(&*tm);
    }
    tm.is_running = true;
    preempt(tm)
}

/// Adds the tasks of `tasks_mask` to the active set, then schedules.
pub fn release(tm: &mut TaskManager, tasks_mask: &u32) -> (r: Result<(), KernelError>)
    ensures
        final(tm)@ == old(tm)@.release(*tasks_mask),
        r is Err <==> old(tm)@.activate(*tasks_mask).schedule_fails(),
        r is Err ==> r == Err::<(), KernelError>(KernelError::DoesNotExist),
{
    proof {
        use_type_invariant(&*tm);
    }
    tm.active_mask = tm.active_mask | *tasks_mask;
    preempt(tm)
}

/// Creates the task of priority `priority` on `stack`: writes the context
/// that the task starts from and fills the task's slot. The task is not
/// released.
pub fn create_task(tm: &mut TaskManager, priority: usize, stack: &mut [u32], handler: u32) -> (r:
    Result<(), KernelError>)
    ensures
        r is Ok <==> old(stack)@.len() >= MIN_STACK_SIZE && priority < MAX_TASKS,
        r == Err::<(), KernelError>(KernelError::StackTooSmall) <==> old(stack)@.len()
            < MIN_STACK_SIZE,
        r == Err::<(), KernelError>(KernelError::DoesNotExist) <==> old(stack)@.len()
            >= MIN_STACK_SIZE && priority >= MAX_TASKS,
        final(stack)@ == if old(stack)@.len() >= MIN_STACK_SIZE {
            initial_frame(old(stack)@, handler)
        } else {
            old(stack)@
        },
        final(tm)@ == if r is Ok {
            old(tm)@.with_task(priority, initial_tcb(old(stack)@.len()))
        } else {
            old(tm)@
        },
{
    match create_tcb(stack, handler) {
        Ok(tcb) => {
            insert_tcb(tm, priority, tcb)?;
            Ok(())
        },
        Err(e) => Err(e),
    }
}

/// The scheduling decision. While the kernel runs, the runnable task of
/// highest priority becomes the running task; if it was not running already
/// a context switch to it is requested. Fails when that task was never
/// created; it still counts as the running task then, and no switch is
/// requested.
pub fn preempt(tm: &mut TaskManager) -> (r: Result<(), KernelError>)
    ensures
        final(tm)@ == old(tm)@.schedule(),
        r is Err <==> old(tm)@.schedule_fails(),
        r is Err ==> r == Err::<(), KernelError>(KernelError::DoesNotExist),
        old(tm)@.is_running ==> final(tm)@.running_tid == msb(final(tm)@.runnable()),
{
    proof {
        use_type_invariant(&*tm);
        lemma_msb_is_highest(tm@.runnable());
    }
    if tm.is_running {
        let highest = get_HT(tm);
        if tm.running_tid != highest {
            tm.running_tid = highest;
            if tm.tcbs[highest].is_some() {
                tm.next_tid = highest;
                tm.switch_pending = true;
            } else {
                return Err(KernelError::DoesNotExist);
            }
        }
    }
    Ok(())
}

/// The runnable task of highest priority; the idle task when none is.
#[allow(non_snake_case)]
fn get_HT(tm: &TaskManager) -> (highest: usize)
    ensures
        highest == tm@.highest(),
        highest < MAX_TASKS,
{
    let runnable = tm.active_mask & !tm.blocked_mask;
    get_msb(&runnable)
}

/// Lays out on `stack` the context of a task that starts at `handler`.
fn create_tcb(stack: &mut [u32], handler: u32) -> (r: Result<TaskControlBlock, KernelError>)
    ensures
        r is Ok <==> old(stack)@.len() >= MIN_STACK_SIZE,
        r is Err ==> r == Err::<TaskControlBlock, KernelError>(KernelError::StackTooSmall)
            && final(stack)@ == old(stack)@,
        r matches Ok(tcb) ==> tcb == initial_tcb(old(stack)@.len()) && final(stack)@
            == initial_frame(old(stack)@, handler),
{
    if stack.len() < MIN_STACK_SIZE {
        return Err(KernelError::StackTooSmall);
    }
    let idx = stack.len() - 1;
    stack[idx] = INITIAL_XPSR;
    stack[idx - 1] = handler;
    Ok(TaskControlBlock { sp: stack.len() - CONTEXT_FRAME_SIZE })
}

/// Stores `tcb` in slot `idx`.
fn insert_tcb(tm: &mut TaskManager, idx: usize, tcb: TaskControlBlock) -> (r: Result<
    (),
    KernelError,
>)
    ensures
        r is Ok <==> idx < MAX_TASKS,
        r is Err ==> r == Err::<(), KernelError>(KernelError::DoesNotExist) && final(tm)@ == old(
            tm,
        )@,
        r is Ok ==> final(tm)@ == old(tm)@.with_task(idx, tcb),
{
    proof {
        use_type_invariant(&*tm);
    }
    if idx >= MAX_TASKS {
        return Err(KernelError::DoesNotExist);
    }
    tm.tcbs[idx] = Some(tcb);
    Ok(())
}

pub fn is_preemptive(tm: &TaskManager) -> (r: bool)
    ensures
        r == tm@.is_preemptive,
{
    tm.is_preemptive
}

/// The running task.
#[allow(non_snake_case)]
pub fn get_RT(tm: &TaskManager) -> (tid: usize)
    ensures
        tid == tm@.running_tid,
        tid < MAX_TASKS || tid == NO_TASK,
{
    proof {
        use_type_invariant(tm);
    }
    tm.running_tid
}

/// Adds the tasks of `tasks_mask` to the blocked set. Does not schedule.
pub fn block_tasks(tm: &mut TaskManager, tasks_mask: u32)
    ensures
        final(tm)@ == old(tm)@.block(tasks_mask),
{
    proof {
        use_type_invariant(&*tm);
    }
    tm.blocked_mask = tm.blocked_mask | tasks_mask;
}

/// Takes the tasks of `tasks_mask` out of the blocked set. Does not schedule.
pub fn unblock_tasks(tm: &mut TaskManager, tasks_mask: u32)
    ensures
        final(tm)@ == old(tm)@.unblock(tasks_mask),
{
    proof {
        use_type_invariant(&*tm);
    }
    tm.blocked_mask = tm.blocked_mask & !tasks_mask;
}

/// The running task leaves the active set; then schedules.
pub fn task_exit(tm: &mut TaskManager) -> (r: Result<(), KernelError>)
    ensures
        final(tm)@ == old(tm)@.task_exit(),
        r is Err <==> old(tm)@.retire().schedule_fails(),
        r is Err ==> r == Err::<(), KernelError>(KernelError::DoesNotExist),
{
    proof {
        use_type_invariant(&*tm);
    }
    let rt = get_RT(tm);
    tm.active_mask = tm.active_mask & !task_bit(rt as u32);
    preempt(tm)
}

/// The system tick: schedules if the kernel is preemptive.
pub fn tick(tm: &mut TaskManager) -> (r: Result<(), KernelError>)
    ensures
        final(tm)@ == old(tm)@.tick(),
        r is Err <==> old(tm)@.is_preemptive && old(tm)@.schedule_fails(),
        r is Err ==> r == Err::<(), KernelError>(KernelError::DoesNotExist),
{
    if tm.is_preemptive {
        preempt(tm)
    } else {
        Ok(())
    }
}

/// Takes the pending context-switch request, if there is one, and gives the
/// task to switch to. The slot of that task is filled.
pub fn take_switch_request(tm: &mut TaskManager) -> (next: Option<usize>)
    ensures
        final(tm)@ == (TaskState { switch_pending: false, ..old(tm)@ }),
        next == if old(tm)@.switch_pending {
            Some(old(tm)@.next_tid)
        } else {
            None
        },
        next matches Some(tid) ==> tid < MAX_TASKS && old(tm)@.tcbs[tid as int] is Some,
{
    proof {
        use_type_invariant(&*tm);
    }
    if tm.switch_pending {
        tm.switch_pending = false;
        Some(tm.next_tid)
    } else {
        None
    }
}

/// The value to write to the Interrupt Control and State Register, given the
/// value read from it, so that the context-switch exception is pended and
/// nothing else changes.
pub fn pend_switch(icsr: u32) -> (value: u32)
    ensures
        value == icsr | ICSR_PENDSVSET,
{
    icsr | ICSR_PENDSVSET
}

/// The control block of task `tid`, if the task was created.
pub fn get_tcb(tm: &TaskManager, tid: usize) -> (tcb: Option<TaskControlBlock>)
    ensures
        tcb == if tid < MAX_TASKS {
            tm@.tcbs[tid as int]
        } else {
            None
        },
{
    if tid < MAX_TASKS {
        tm.tcbs[tid]
    } else {
        None
    }
}

/// The task that the last requested context switch resumes.
pub fn get_next_tid(tm: &TaskManager) -> (tid: usize)
    ensures
        tid == tm@.next_tid,
{
    tm.next_tid
}

pub fn is_running(tm: &TaskManager) -> (r: bool)
    ensures
        r == tm@.is_running,
{
    tm.is_running
}

pub fn get_active_mask(tm: &TaskManager) -> (mask: u32)
    ensures
        mask == tm@.active_mask,
{
    tm.active_mask
}

pub fn get_blocked_mask(tm: &TaskManager) -> (mask: u32)
    ensures
        mask == tm@.blocked_mask,
{
    tm.blocked_mask
}

/// Releases the tasks listed in `tasks`.
pub fn release_tasks(tm: &mut TaskManager, tasks: &[TaskId]) -> (r: Result<(), KernelError>)
    ensures
        final(tm)@ == old(tm)@.release(mask_of(tasks@)),
        r is Err <==> old(tm)@.activate(mask_of(tasks@)).schedule_fails(),
        r is Err ==> r == Err::<(), KernelError>(KernelError::DoesNotExist),
{
    let mask = generate_task_mask(tasks);
    release(tm, &mask)
}

/// The idle task stays in the active set through every operation but its
/// own exit.
pub proof fn lemma_idle_stays_active(s: TaskState, mask: u32, priority: usize, tcb: TaskControlBlock)
    requires
        s.wf(),
        s.idle_active(),
    ensures
        s.schedule().idle_active(),
        s.start().idle_active(),
        s.tick().idle_active(),
        s.release(mask).idle_active(),
        s.block(mask).idle_active(),
        s.unblock(mask).idle_active(),
        s.with_task(priority, tcb).idle_active(),
        s.running_tid != 0 ==> s.task_exit().idle_active(),
{
    let a = s.active_mask;
    let r = s.running_tid as u32;
    assert((a | mask) & 1 == 1 && (r != 0 ==> (a & !bit(r)) & 1 == 1)) by (bit_vector)
        requires
            a & 1 == 1,
    ;
}

/// Some task stays runnable through every operation that does not block or
/// retire the last runnable task.
pub proof fn lemma_runnable_stays_nonempty(
    s: TaskState,
    mask: u32,
    priority: usize,
    tcb: TaskControlBlock,
)
    requires
        s.wf(),
        s.runnable() != 0,
    ensures
        s.schedule().runnable() != 0,
        s.start().runnable() != 0,
        s.tick().runnable() != 0,
        s.release(mask).runnable() != 0,
        s.unblock(mask).runnable() != 0,
        s.with_task(priority, tcb).runnable() != 0,
        s.runnable() & !mask != 0 ==> s.block(mask).runnable() != 0,
        s.runnable() & !bit(s.running_tid as u32) != 0 ==> s.task_exit().runnable() != 0,
{
    let a = s.active_mask;
    let b = s.blocked_mask;
    let x = bit(s.running_tid as u32);
    assert((a | mask) & !b != 0 && a & !(b & !mask) != 0) by (bit_vector)
        requires
            a & !b != 0,
    ;
    assert(a & !(b | mask) == (a & !b) & !mask && (a & !x) & !b == (a & !b) & !x)
        by (bit_vector);
}

/// With the idle task active and not blocked, some task is runnable.
pub proof fn lemma_idle_is_runnable(s: TaskState)
    requires
        s.idle_active(),
        s.blocked_mask & 1 == 0,
    ensures
        s.runnable() != 0,
{
    let a = s.active_mask;
    let b = s.blocked_mask;
    assert(a & !b != 0) by (bit_vector)
        requires
            a & 1 == 1,
            b & 1 == 0,
    ;
}

/// While the kernel runs, a scheduling decision leaves as the running task
/// the runnable task of highest priority: the position of the most
/// significant bit of the runnable set. That task is runnable, unless
/// nothing is and the idle task was selected, and no task of higher priority
/// is runnable.
pub proof fn lemma_schedule_selects_highest(s: TaskState)
    requires
        s.is_running,
    ensures
        s.schedule().running_tid == msb(s.schedule().runnable()),
        s.schedule().running_tid < MAX_TASKS,
        s.runnable() != 0 ==> has_bit(s.runnable(), s.schedule().running_tid as u32),
        s.runnable() == 0 ==> s.schedule().running_tid == 0,
        forall|j: u32| s.schedule().running_tid < j ==> !has_bit(s.runnable(), j),
{
    lemma_msb_is_highest(s.runnable());
}

/// Every operation that ends in a scheduling decision leaves the running
/// task equal to the most significant bit of the runnable set, once the
/// kernel runs.
pub proof fn lemma_running_is_highest(s: TaskState, mask: u32)
    ensures
        s.start().running_tid == msb(s.start().runnable()),
        s.is_running ==> s.release(mask).running_tid == msb(s.release(mask).runnable()),
        s.is_running ==> s.task_exit().running_tid == msb(s.task_exit().runnable()),
        s.is_running && s.is_preemptive ==> s.tick().running_tid == msb(s.tick().runnable()),
{
    lemma_schedule_selects_highest(TaskState { is_running: true, ..s });
    if s.is_running {
        lemma_schedule_selects_highest(s);
        lemma_schedule_selects_highest(s.activate(mask));
        lemma_schedule_selects_highest(s.retire());
    }
}

/// The first scheduling decision, made by `start`, always dispatches: the
/// runnable task of highest priority becomes the running task and, as its
/// slot is filled, a switch to it is requested.
pub proof fn lemma_start_dispatches(s: TaskState)
    requires
        s.wf(),
        !s.is_running,
    ensures
        s.start().is_running,
        s.start().running_tid == s.highest(),
        s.tcbs[s.highest() as int] is Some ==> s.start().switch_pending && s.start().next_tid
            == s.highest(),
        s.highest() == 0 ==> s.start().switch_pending,
{
    lemma_msb_is_highest(s.runnable());
}

/// Before the kernel is started no scheduling decision has any effect.
pub proof fn lemma_no_scheduling_before_start(s: TaskState, mask: u32)
    requires
        !s.is_running,
    ensures
        s.schedule() == s,
        s.tick() == s,
        s.release(mask) == s.activate(mask),
        s.task_exit() == s.retire(),
{
}

/// The exit of a task other than the idle task always yields: with the
/// kernel running and the exiting task selected by the last scheduling
/// decision, another task becomes the running task.
pub proof fn lemma_exit_yields(s: TaskState)
    requires
        s.wf(),
        s.is_running,
        s.running_tid == s.highest(),
        s.running_tid != 0,
    ensures
        s.task_exit().running_tid != s.running_tid,
        s.task_exit().running_tid == s.retire().highest(),
{
    let r = s.running_tid as u32;
    let v = s.retire().runnable();
    lemma_msb_is_highest(s.runnable());
    lemma_msb_is_highest(v);
    let a = s.active_mask;
    let b = s.blocked_mask;
    assert(((a & !bit(r)) & !b) & bit(r) == 0) by (bit_vector);
}

/// Releasing a task that was not active, and then the exit of that task
/// once it runs, leaves the active set as it was before the release.
pub proof fn lemma_release_then_exit(s: TaskState, mask: u32, t: u32)
    requires
        s.wf(),
        t < MAX_TASKS,
        mask & !s.active_mask == bit(t),
        s.release(mask).running_tid == t,
    ensures
        s.release(mask).task_exit().active_mask == s.active_mask,
{
    let a = s.active_mask;
    assert((a | mask) & !bit(t) == a) by (bit_vector)
        requires
            t < 32,
            mask & !a == bit(t),
    ;
}

} // verus!
