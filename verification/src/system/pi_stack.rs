//! The ceiling stack: the ceilings of the resources that are locked, in the
//! order in which the locks were granted.

use vstd::prelude::*;
use crate::config::MAX_TASKS;
use crate::errors::KernelError;
use crate::kernel::task_manager::TaskId;

verus! {

/// Whether each entry of `s` exceeds the one below it.
pub open spec fn strictly_increasing(s: Seq<u32>) -> bool {
    forall|i: int, j: int| 0 <= i < j < s.len() ==> s[i] < s[j]
}

/// The system ceiling of a ceiling stack: its top entry, and -1 when the
/// stack is empty.
pub open spec fn system_ceiling_of(s: Seq<u32>) -> int {
    if s.len() == 0 {
        -1
    } else {
        s.last() as int
    }
}

/// Whether `s` can be the content of a ceiling stack: priorities, strictly
/// increasing from the bottom to the top.
pub open spec fn valid_ceilings(s: Seq<u32>) -> bool {
    &&& strictly_increasing(s)
    &&& forall|i: int| 0 <= i < s.len() ==> s[i] < MAX_TASKS
}

/// An entry of a strictly increasing stack is at least its own height.
pub proof fn lemma_entry_at_least_height(s: Seq<u32>, i: int)
    requires
        strictly_increasing(s),
        0 <= i < s.len(),
    ensures
        s[i] >= i,
    decreases i,
{
    if i > 0 {
        lemma_entry_at_least_height(s, i - 1);
    }
}

/// A ceiling stack never holds more entries than there are priorities.
pub proof fn lemma_depth_bounded(s: Seq<u32>)
    requires
        valid_ceilings(s),
    ensures
        s.len() <= MAX_TASKS,
{
    if s.len() > 0 {
        lemma_entry_at_least_height(s, s.len() - 1);
    }
}

/// A ceiling above the system ceiling may be pushed: the stack stays valid,
/// and the new ceiling stands on it once, on top.
pub proof fn lemma_push_keeps_valid(s: Seq<u32>, ceiling: u32)
    requires
        valid_ceilings(s),
        ceiling > system_ceiling_of(s),
        ceiling < MAX_TASKS,
    ensures
        valid_ceilings(s.push(ceiling)),
        system_ceiling_of(s.push(ceiling)) == ceiling,
        forall|i: int|
            0 <= i < s.push(ceiling).len() ==> (s.push(ceiling)[i] == ceiling <==> i == s.len()),
        s.push(ceiling).drop_last() == s,
{
    let t = s.push(ceiling);
    assert forall|i: int, j: int| 0 <= i < j < t.len() implies t[i] < t[j] by {
        if j == s.len() && s.len() > 0 && i < s.len() - 1 {
            assert(s[i] < s[s.len() - 1]);
        }
    }
    assert forall|i: int| 0 <= i < t.len() implies (t[i] == ceiling <==> i == s.len()) by {
        if i < s.len() && s.len() > 0 && i < s.len() - 1 {
            assert(s[i] < s[s.len() - 1]);
        }
    }
    assert(t.drop_last() =~= s);
}

/// No ceiling stands twice on a ceiling stack.
pub proof fn lemma_ceilings_distinct(s: Seq<u32>, i: int, j: int)
    requires
        strictly_increasing(s),
        0 <= i < s.len(),
        0 <= j < s.len(),
        i != j,
    ensures
        s[i] != s[j],
{
    if i < j {
        assert(s[i] < s[j]);
    } else {
        assert(s[j] < s[i]);
    }
}

pub struct PiStack {
    /// Number of ceilings on the stack.
    top: usize,
    /// The ceilings, from the bottom; entries from `top` on are unused.
    pi_stack: [u32; MAX_TASKS],
    /// The ceiling on top of the stack, -1 when there is none.
    system_ceiling: i32,
}

impl View for PiStack {
    type V = Seq<u32>;

    /// The ceilings on the stack, from the bottom to the top.
    closed spec fn view(&self) -> Seq<u32> {
        self.pi_stack@.take(self.top as int)
    }
}

impl PiStack {
    /// Holds of every ceiling stack.
    #[verifier::type_invariant]
    pub closed spec fn inv(self) -> bool {
        &&& self.top <= MAX_TASKS
        &&& valid_ceilings(self@)
        &&& self.system_ceiling == system_ceiling_of(self@)
    }

    /// The empty ceiling stack.
    pub fn new() -> (stack: Self)
        ensures
            stack@ == Seq::<u32>::empty(),
    {
        let stack = PiStack { top: 0, pi_stack: [0;MAX_TASKS], system_ceiling: -1 };
        assert(stack@ =~= Seq::<u32>::empty());
        stack
    }

    /// The ceiling on top of the stack, -1 when the stack is empty.
    pub fn system_ceiling(&self) -> (ceiling: i32)
        ensures
            ceiling == system_ceiling_of(self@),
            valid_ceilings(self@),
            -1 <= ceiling < MAX_TASKS,
    {
        proof {
            use_type_invariant(self);
        }
        self.system_ceiling
    }

    /// Number of ceilings on the stack.
    pub fn depth(&self) -> (n: usize)
        ensures
            n == self@.len(),
            n <= MAX_TASKS,
    {
        proof {
            use_type_invariant(self);
        }
        self.top
    }

    /// Pushes `ceiling`, which must be a priority above the system ceiling.
    pub fn push_stack(&mut self, ceiling: TaskId) -> (r: Result<(), KernelError>)
        ensures
            r is Ok <==> system_ceiling_of(old(self)@) < ceiling < MAX_TASKS,
            r is Ok ==> final(self)@ == old(self)@.push(ceiling),
            r is Err ==> r == Err::<(), KernelError>(KernelError::CeilingViolation)
                && final(self)@ == old(self)@,
            valid_ceilings(final(self)@),
    {
        proof {
            use_type_invariant(&*self);
        }
        if ceiling >= MAX_TASKS as u32 || ceiling as i32 <= self.system_ceiling {
            return Err(KernelError::CeilingViolation);
        }
        proof {
            lemma_push_keeps_valid(self@, ceiling);
            lemma_depth_bounded(self@.push(ceiling));
        }
        let top = self.top;
        let pi_stack = update(self.pi_stack, top, ceiling);
        assert(pi_stack@.take(top + 1) =~= self@.push(ceiling));
        *self = PiStack { top: top + 1, pi_stack, system_ceiling: ceiling as i32 };
        Ok(())
    }

    /// Pops the top ceiling.
    pub fn pop_stack(&mut self) -> (r: Result<(), KernelError>)
        ensures
            r is Ok <==> old(self)@.len() > 0,
            r is Ok ==> final(self)@ == old(self)@.drop_last(),
            r is Err ==> r == Err::<(), KernelError>(KernelError::StackEmpty) && final(self)@
                == old(self)@,
            valid_ceilings(final(self)@),
    {
        proof {
            use_type_invariant(&*self);
        }
        if self.top == 0 {
            return Err(KernelError::StackEmpty);
        }
        let ghost before = self@;
        let top = self.top - 1;
        let below: i32 = if top == 0 {
            -1
        } else {
            self.pi_stack[top - 1] as i32
        };
        assert(below == system_ceiling_of(before.drop_last())) by {
            if top > 0 {
                assert(before[top - 1] == self.pi_stack@[top - 1]);
                assert(before.drop_last().last() == before[top - 1]);
            }
        }
        assert(self.pi_stack@.take(top as int) =~= before.drop_last());
        *self = PiStack { top, pi_stack: self.pi_stack, system_ceiling: below };
        Ok(())
    }
}

/// `stack` with `value` at `index`.
fn update(stack: [u32; MAX_TASKS], index: usize, value: u32) -> (r: [u32; MAX_TASKS])
    requires
        index < MAX_TASKS,
    ensures
        r@ == stack@.update(index as int, value),
{
    let mut r = stack;
    r[index] = value;
    r
}

} // verus!
