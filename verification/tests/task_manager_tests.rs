use rtos_kernel::config::{INITIAL_XPSR, MAX_STACK_SIZE, MAX_TASKS, MIN_STACK_SIZE, NO_TASK};
use rtos_kernel::errors::KernelError;
use rtos_kernel::kernel::task_manager::{
    block_tasks, create_task, get_RT, get_active_mask, get_blocked_mask, get_next_tid, get_tcb,
    init, is_preemptive, is_running, pend_switch, preempt, release, release_tasks, start_kernel,
    take_switch_request, task_exit, tick, unblock_tasks, TaskControlBlock, TaskManager,
};

const IDLE: u32 = 0x0800_0101;

fn kernel(preemptive: bool) -> TaskManager {
    let mut stack = [0u32; MAX_STACK_SIZE];
    match init(preemptive, &mut stack, IDLE) {
        Ok(tm) => tm,
        Err(_) => panic!("the idle task was not created"),
    }
}

fn spawn(tm: &mut TaskManager, priority: usize) {
    let mut stack = [0u32; MAX_STACK_SIZE];
    assert_eq!(create_task(tm, priority, &mut stack, 0x0800_0001 + 0x100 * priority as u32), Ok(()));
}

#[test]
fn init_creates_only_the_idle_task() {
    let mut stack = [7u32; 64];
    let tm = match init(true, &mut stack, IDLE) {
        Ok(tm) => tm,
        Err(_) => panic!("the idle task was not created"),
    };
    assert_eq!(get_active_mask(&tm), 1);
    assert_eq!(get_blocked_mask(&tm), 0);
    assert_eq!(get_RT(&tm), NO_TASK);
    assert_eq!(get_next_tid(&tm), NO_TASK);
    assert!(!is_running(&tm));
    assert!(is_preemptive(&tm));
    assert_eq!(get_tcb(&tm, 0), Some(TaskControlBlock { sp: 48 }));
    for tid in 1..MAX_TASKS {
        assert_eq!(get_tcb(&tm, tid), None);
    }
    assert_eq!(get_tcb(&tm, MAX_TASKS), None);
    assert_eq!(stack[63], INITIAL_XPSR);
    assert_eq!(stack[62], IDLE);
    assert!(stack[..62].iter().all(|w| *w == 7));
}

#[test]
fn init_keeps_the_preemption_mode() {
    assert!(is_preemptive(&kernel(true)));
    assert!(!is_preemptive(&kernel(false)));
}

#[test]
fn init_on_a_short_stack_fails() {
    let mut stack = [5u32; 31];
    assert!(matches!(init(true, &mut stack, IDLE), Err(KernelError::StackTooSmall)));
    assert_eq!(stack, [5u32; 31]);
}

#[test]
fn create_task_lays_out_the_first_frame() {
    let mut tm = kernel(true);
    let mut stack = [0u32; 40];
    assert_eq!(create_task(&mut tm, 3, &mut stack, 0x0800_0421), Ok(()));
    assert_eq!(stack[39], 1 << 24);
    assert_eq!(stack[38], 0x0800_0421);
    assert!(stack[..38].iter().all(|w| *w == 0));
    assert_eq!(get_tcb(&tm, 3), Some(TaskControlBlock { sp: 40 - 16 }));
}

#[test]
fn create_task_on_the_shortest_stack() {
    let mut tm = kernel(true);
    let mut stack = [0u32; MIN_STACK_SIZE];
    assert_eq!(create_task(&mut tm, 1, &mut stack, 0x21), Ok(()));
    assert_eq!(get_tcb(&tm, 1), Some(TaskControlBlock { sp: 16 }));
    assert_eq!(stack[31], INITIAL_XPSR);
    assert_eq!(stack[30], 0x21);
}

#[test]
fn create_task_does_not_release_the_task() {
    let mut tm = kernel(true);
    spawn(&mut tm, 4);
    assert_eq!(get_active_mask(&tm), 1);
    assert_eq!(get_blocked_mask(&tm), 0);
    assert_eq!(get_RT(&tm), NO_TASK);
    assert_eq!(take_switch_request(&mut tm), None);
}

#[test]
fn stack_too_small() {
    let mut tm = kernel(true);
    let mut stack = [9u32; 31];
    assert_eq!(create_task(&mut tm, 2, &mut stack, 0x0800_0201), Err(KernelError::StackTooSmall));
    assert_eq!(get_tcb(&tm, 2), None);
    assert_eq!(stack, [9u32; 31]);
    assert_eq!(get_active_mask(&tm), 1);
    let mut empty: [u32; 0] = [];
    assert_eq!(create_task(&mut tm, 2, &mut empty, 0x0800_0201), Err(KernelError::StackTooSmall));
    assert_eq!(get_tcb(&tm, 2), None);
}

#[test]
fn create_task_past_the_last_slot() {
    let mut tm = kernel(true);
    let mut stack = [0u32; 64];
    assert_eq!(create_task(&mut tm, MAX_TASKS, &mut stack, 0x11), Err(KernelError::DoesNotExist));
    assert_eq!(create_task(&mut tm, usize::MAX, &mut stack, 0x11), Err(KernelError::DoesNotExist));
    for tid in 1..MAX_TASKS {
        assert_eq!(get_tcb(&tm, tid), None);
    }
}

#[test]
fn short_stack_is_reported_before_a_bad_priority() {
    let mut tm = kernel(true);
    let mut stack = [0u32; 8];
    assert_eq!(create_task(&mut tm, MAX_TASKS, &mut stack, 0x11), Err(KernelError::StackTooSmall));
}

#[test]
fn create_task_in_every_slot() {
    let mut tm = kernel(true);
    for priority in 0..MAX_TASKS {
        spawn(&mut tm, priority);
    }
    for priority in 0..MAX_TASKS {
        assert_eq!(get_tcb(&tm, priority), Some(TaskControlBlock { sp: MAX_STACK_SIZE - 16 }));
    }
}

#[test]
fn scheduling_has_no_effect_before_start() {
    let mut tm = kernel(true);
    spawn(&mut tm, 1);
    assert_eq!(release_tasks(&mut tm, &[1]), Ok(()));
    assert_eq!(get_active_mask(&tm), 0b11);
    assert_eq!(get_RT(&tm), NO_TASK);
    assert_eq!(preempt(&mut tm), Ok(()));
    assert_eq!(tick(&mut tm), Ok(()));
    assert_eq!(get_RT(&tm), NO_TASK);
    assert_eq!(take_switch_request(&mut tm), None);
}

#[test]
fn release_of_a_task_never_created_is_accepted_before_start() {
    let mut tm = kernel(true);
    assert_eq!(release(&mut tm, &0b1000), Ok(()));
    assert_eq!(get_active_mask(&tm), 0b1001);
}

#[test]
fn start_with_only_the_idle_task_dispatches_it() {
    let mut tm = kernel(true);
    assert_eq!(start_kernel(&mut tm), Ok(()));
    assert!(is_running(&tm));
    assert_eq!(get_RT(&tm), 0);
    assert_eq!(get_next_tid(&tm), 0);
    assert_eq!(take_switch_request(&mut tm), Some(0));
    assert_eq!(take_switch_request(&mut tm), None);
}

#[test]
fn preemption() {
    let mut tm = kernel(true);
    spawn(&mut tm, 1);
    spawn(&mut tm, 2);
    assert_eq!(release_tasks(&mut tm, &[1, 2]), Ok(()));
    assert_eq!(start_kernel(&mut tm), Ok(()));
    assert_eq!(get_RT(&tm), 2);
    assert_eq!(take_switch_request(&mut tm), Some(2));
    assert_eq!(task_exit(&mut tm), Ok(()));
    assert_eq!(get_RT(&tm), 1);
    assert_eq!(get_active_mask(&tm), 0b011);
    assert_eq!(take_switch_request(&mut tm), Some(1));
    assert_eq!(task_exit(&mut tm), Ok(()));
    assert_eq!(get_RT(&tm), 0);
    assert_eq!(get_active_mask(&tm), 0b001);
    assert_eq!(take_switch_request(&mut tm), Some(0));
}

#[test]
fn release_of_a_higher_task_preempts() {
    let mut tm = kernel(true);
    spawn(&mut tm, 1);
    spawn(&mut tm, 5);
    assert_eq!(release_tasks(&mut tm, &[1]), Ok(()));
    assert_eq!(start_kernel(&mut tm), Ok(()));
    assert_eq!(take_switch_request(&mut tm), Some(1));
    assert_eq!(release(&mut tm, &(1 << 5)), Ok(()));
    assert_eq!(get_RT(&tm), 5);
    assert_eq!(get_next_tid(&tm), 5);
    assert_eq!(take_switch_request(&mut tm), Some(5));
}

#[test]
fn release_of_a_lower_task_does_not_preempt() {
    let mut tm = kernel(true);
    spawn(&mut tm, 1);
    spawn(&mut tm, 5);
    assert_eq!(release_tasks(&mut tm, &[5]), Ok(()));
    assert_eq!(start_kernel(&mut tm), Ok(()));
    assert_eq!(take_switch_request(&mut tm), Some(5));
    assert_eq!(release_tasks(&mut tm, &[1]), Ok(()));
    assert_eq!(get_RT(&tm), 5);
    assert_eq!(get_active_mask(&tm), 0b100011);
    assert_eq!(take_switch_request(&mut tm), None);
}

#[test]
fn release_of_a_task_never_created_fails_once_running() {
    let mut tm = kernel(true);
    assert_eq!(start_kernel(&mut tm), Ok(()));
    assert_eq!(take_switch_request(&mut tm), Some(0));
    assert_eq!(release_tasks(&mut tm, &[3]), Err(KernelError::DoesNotExist));
    assert_eq!(get_active_mask(&tm), 0b1001);
    assert_eq!(get_RT(&tm), 3);
    assert_eq!(get_next_tid(&tm), 0);
    assert_eq!(take_switch_request(&mut tm), None);
    assert_eq!(preempt(&mut tm), Ok(()));
}

#[test]
fn start_fails_when_the_highest_released_task_was_never_created() {
    let mut tm = kernel(true);
    assert_eq!(release_tasks(&mut tm, &[7]), Ok(()));
    assert_eq!(start_kernel(&mut tm), Err(KernelError::DoesNotExist));
    assert!(is_running(&tm));
    assert_eq!(take_switch_request(&mut tm), None);
}

#[test]
fn blocked_tasks_are_not_scheduled() {
    let mut tm = kernel(true);
    spawn(&mut tm, 2);
    spawn(&mut tm, 3);
    assert_eq!(start_kernel(&mut tm), Ok(()));
    block_tasks(&mut tm, 0b1000);
    assert_eq!(get_blocked_mask(&tm), 0b1000);
    assert_eq!(release_tasks(&mut tm, &[2, 3]), Ok(()));
    assert_eq!(get_RT(&tm), 2);
    unblock_tasks(&mut tm, 0b1000);
    assert_eq!(get_blocked_mask(&tm), 0);
    assert_eq!(get_RT(&tm), 2);
    assert_eq!(preempt(&mut tm), Ok(()));
    assert_eq!(get_RT(&tm), 3);
}

#[test]
fn block_and_unblock_change_only_the_blocked_set() {
    let mut tm = kernel(true);
    block_tasks(&mut tm, 0b0110);
    block_tasks(&mut tm, 0b1100);
    assert_eq!(get_blocked_mask(&tm), 0b1110);
    unblock_tasks(&mut tm, 0b0101);
    assert_eq!(get_blocked_mask(&tm), 0b1010);
    assert_eq!(get_active_mask(&tm), 1);
    assert_eq!(take_switch_request(&mut tm), None);
}

#[test]
fn idle_runs_when_nothing_is_runnable() {
    let mut tm = kernel(true);
    spawn(&mut tm, 1);
    assert_eq!(release_tasks(&mut tm, &[1]), Ok(()));
    assert_eq!(start_kernel(&mut tm), Ok(()));
    assert_eq!(get_RT(&tm), 1);
    block_tasks(&mut tm, 0b11);
    assert_eq!(preempt(&mut tm), Ok(()));
    assert_eq!(get_RT(&tm), 0);
}

#[test]
fn tick_schedules_only_when_preemptive() {
    let mut tm = kernel(false);
    spawn(&mut tm, 1);
    assert_eq!(start_kernel(&mut tm), Ok(()));
    assert_eq!(take_switch_request(&mut tm), Some(0));
    block_tasks(&mut tm, 0b10);
    assert_eq!(release_tasks(&mut tm, &[1]), Ok(()));
    unblock_tasks(&mut tm, 0b10);
    assert_eq!(tick(&mut tm), Ok(()));
    assert_eq!(get_RT(&tm), 0);
    assert_eq!(take_switch_request(&mut tm), None);

    let mut tm = kernel(true);
    spawn(&mut tm, 1);
    assert_eq!(start_kernel(&mut tm), Ok(()));
    assert_eq!(take_switch_request(&mut tm), Some(0));
    block_tasks(&mut tm, 0b10);
    assert_eq!(release_tasks(&mut tm, &[1]), Ok(()));
    unblock_tasks(&mut tm, 0b10);
    assert_eq!(tick(&mut tm), Ok(()));
    assert_eq!(get_RT(&tm), 1);
    assert_eq!(take_switch_request(&mut tm), Some(1));
}

#[test]
fn task_exit_then_re_release() {
    let mut tm = kernel(true);
    let mut stack1 = [0u32; 64];
    assert_eq!(create_task(&mut tm, 1, &mut stack1, 0x0800_0101), Ok(()));
    spawn(&mut tm, 3);
    assert_eq!(release_tasks(&mut tm, &[1]), Ok(()));
    assert_eq!(start_kernel(&mut tm), Ok(()));
    assert_eq!(get_RT(&tm), 1);
    assert_eq!(task_exit(&mut tm), Ok(()));
    assert_eq!(get_RT(&tm), 0);
    assert_eq!(get_active_mask(&tm), 0b0001);
    assert_eq!(release_tasks(&mut tm, &[3]), Ok(()));
    assert_eq!(get_RT(&tm), 3);
    assert_eq!(take_switch_request(&mut tm), Some(3));
    assert_eq!(release_tasks(&mut tm, &[1]), Ok(()));
    assert_eq!(get_active_mask(&tm), 0b1011);
    assert_eq!(get_RT(&tm), 3);
    assert_eq!(take_switch_request(&mut tm), None);
    assert_eq!(task_exit(&mut tm), Ok(()));
    assert_eq!(get_RT(&tm), 1);
    assert_eq!(take_switch_request(&mut tm), Some(1));
    assert_eq!(get_tcb(&tm, 1), Some(TaskControlBlock { sp: 48 }));
    assert_eq!(stack1[63], INITIAL_XPSR);
    assert_eq!(stack1[62], 0x0800_0101);
}

#[test]
fn task_exit_before_start_retires_nobody() {
    let mut tm = kernel(true);
    assert_eq!(release_tasks(&mut tm, &[2]), Ok(()));
    assert_eq!(task_exit(&mut tm), Ok(()));
    assert_eq!(get_active_mask(&tm), 0b101);
    assert_eq!(get_RT(&tm), NO_TASK);
}

#[test]
fn exit_of_the_idle_task_clears_its_bit() {
    let mut tm = kernel(true);
    assert_eq!(start_kernel(&mut tm), Ok(()));
    assert_eq!(get_RT(&tm), 0);
    assert_eq!(task_exit(&mut tm), Ok(()));
    assert_eq!(get_active_mask(&tm), 0);
    assert_eq!(get_RT(&tm), 0);
}

#[test]
fn release_then_exit_restores_the_active_set() {
    let mut tm = kernel(true);
    spawn(&mut tm, 2);
    spawn(&mut tm, 6);
    assert_eq!(release_tasks(&mut tm, &[2]), Ok(()));
    assert_eq!(start_kernel(&mut tm), Ok(()));
    let before = get_active_mask(&tm);
    assert_eq!(release(&mut tm, &(1 << 6)), Ok(()));
    assert_eq!(get_RT(&tm), 6);
    assert_eq!(task_exit(&mut tm), Ok(()));
    assert_eq!(get_active_mask(&tm), before);
    assert_eq!(get_RT(&tm), 2);
}

#[test]
fn idle_stays_active() {
    let mut tm = kernel(true);
    spawn(&mut tm, 1);
    spawn(&mut tm, 2);
    assert_eq!(get_active_mask(&tm) & 1, 1);
    assert_eq!(release_tasks(&mut tm, &[1, 2]), Ok(()));
    assert_eq!(get_active_mask(&tm) & 1, 1);
    assert_eq!(start_kernel(&mut tm), Ok(()));
    assert_eq!(get_active_mask(&tm) & 1, 1);
    block_tasks(&mut tm, 0b100);
    assert_eq!(preempt(&mut tm), Ok(()));
    assert_eq!(get_active_mask(&tm) & 1, 1);
    assert_eq!(task_exit(&mut tm), Ok(()));
    assert_eq!(get_active_mask(&tm) & 1, 1);
    unblock_tasks(&mut tm, 0b100);
    assert_eq!(tick(&mut tm), Ok(()));
    assert_eq!(task_exit(&mut tm), Ok(()));
    assert_eq!(get_active_mask(&tm), 1);
    assert_ne!(get_active_mask(&tm) & !get_blocked_mask(&tm), 0);
}

#[test]
fn running_task_is_the_highest_runnable() {
    let mut tm = kernel(true);
    for priority in [3usize, 9, 17, 31] {
        spawn(&mut tm, priority);
    }
    assert_eq!(start_kernel(&mut tm), Ok(()));
    assert_eq!(release_tasks(&mut tm, &[9, 3]), Ok(()));
    assert_eq!(get_RT(&tm), 9);
    assert_eq!(release_tasks(&mut tm, &[31]), Ok(()));
    assert_eq!(get_RT(&tm), 31);
    block_tasks(&mut tm, 1 << 31);
    assert_eq!(release_tasks(&mut tm, &[17]), Ok(()));
    assert_eq!(get_RT(&tm), 17);
    assert_eq!(task_exit(&mut tm), Ok(()));
    assert_eq!(get_RT(&tm), 9);
    unblock_tasks(&mut tm, 1 << 31);
    assert_eq!(preempt(&mut tm), Ok(()));
    assert_eq!(get_RT(&tm), 31);
}

#[test]
fn all_tasks_released_at_once() {
    let mut tm = kernel(true);
    for priority in 1..MAX_TASKS {
        spawn(&mut tm, priority);
    }
    assert_eq!(release(&mut tm, &0xFFFF_FFFF), Ok(()));
    assert_eq!(start_kernel(&mut tm), Ok(()));
    for priority in (1..MAX_TASKS).rev() {
        assert_eq!(get_RT(&tm), priority);
        assert_eq!(take_switch_request(&mut tm), Some(priority));
        assert_eq!(task_exit(&mut tm), Ok(()));
    }
    assert_eq!(get_RT(&tm), 0);
    assert_eq!(get_active_mask(&tm), 1);
}

#[test]
fn a_second_request_replaces_the_first() {
    let mut tm = kernel(true);
    spawn(&mut tm, 1);
    spawn(&mut tm, 2);
    assert_eq!(start_kernel(&mut tm), Ok(()));
    assert_eq!(release_tasks(&mut tm, &[1]), Ok(()));
    assert_eq!(release_tasks(&mut tm, &[2]), Ok(()));
    assert_eq!(take_switch_request(&mut tm), Some(2));
    assert_eq!(take_switch_request(&mut tm), None);
    assert_eq!(get_next_tid(&tm), 2);
}

#[test]
fn pend_switch_sets_only_the_pendsv_bit() {
    assert_eq!(pend_switch(0), 1 << 28);
    assert_eq!(pend_switch(0x0400_0803), 0x1400_0803);
    assert_eq!(pend_switch(1 << 28), 1 << 28);
}
