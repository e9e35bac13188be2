//! Task masks: one bit per task, bit `i` standing for the task of priority `i`.

use vstd::prelude::*;

verus! {

/// The mask that holds task `i` alone. An identifier past the width of the
/// mask names no task and gives the empty mask.
pub open spec fn bit(i: u32) -> u32 {
    if i < 32 {
        1u32 << i
    } else {
        0
    }
}

/// Whether task `i` is in `mask`.
pub open spec fn has_bit(mask: u32, i: u32) -> bool {
    mask & bit(i) != 0
}

/// Whether every task of `inner` is also in `outer`.
pub open spec fn subset_of(inner: u32, outer: u32) -> bool {
    inner & outer == inner
}

/// The union of the single-task masks of `ids`.
pub open spec fn mask_of(ids: Seq<u32>) -> u32
    decreases ids.len(),
{
    if ids.len() == 0 {
        0
    } else {
        mask_of(ids.drop_last()) | bit(ids.last())
    }
}

/// Position of the most significant set bit of `v`, and 0 for the empty mask.
pub open spec fn msb(v: u32) -> nat
    decreases v,
{
    if v <= 1 {
        0
    } else {
        msb(v / 2) + 1
    }
}

/// Adding task `t` to a mask adds that task and no other.
pub proof fn lemma_bit_insert(mask: u32, t: u32, i: u32)
    ensures
        has_bit(mask | bit(t), i) == (has_bit(mask, i) || (i == t && t < 32)),
{
    assert(has_bit(mask | bit(t), i) == (has_bit(mask, i) || (i == t && t < 32)))
        by (bit_vector);
}

/// A task is in `mask_of(ids)` exactly when it is a task and occurs in `ids`.
pub proof fn lemma_mask_of_members(ids: Seq<u32>, t: u32)
    ensures
        has_bit(mask_of(ids), t) == (t < 32 && ids.contains(t)),
    decreases ids.len(),
{
    if ids.len() == 0 {
        assert(!has_bit(0, t)) by (bit_vector);
    } else {
        let front = ids.drop_last();
        lemma_mask_of_members(front, t);
        lemma_bit_insert(mask_of(front), ids.last(), t);
        if front.contains(t) {
            let k = choose|k: int| 0 <= k < front.len() && front[k] == t;
            assert(ids[k] == t);
        }
        if ids.contains(t) {
            let k = choose|k: int| 0 <= k < ids.len() && ids[k] == t;
            if k < front.len() {
                assert(front[k] == t);
            }
        }
    }
}

/// The tasks of `v / 2` are those of `v`, each one priority lower.
proof fn lemma_half_bits(v: u32, j: u32)
    requires
        0 < j,
    ensures
        has_bit(v, j) == has_bit(v / 2, (j - 1) as u32),
        !has_bit(v / 2, 31),
{
    let k = (j - 1) as u32;
    assert(has_bit(v, j) == has_bit(v / 2, k) && !has_bit(v / 2, 31)) by (bit_vector)
        requires
            j == k + 1,
    ;
}

/// The masks 0 and 1 hold nothing above task 0.
proof fn lemma_bits_of_one(j: u32)
    ensures
        has_bit(1, j) == (j == 0),
        !has_bit(0, j),
{
    assert(has_bit(1, j) == (j == 0) && !has_bit(0, j)) by (bit_vector);
}

/// `msb(v)` names a task, that task is in `v` unless `v` is empty, and no
/// task of higher priority is in `v`.
pub proof fn lemma_msb_is_highest(v: u32)
    ensures
        msb(v) < 32,
        v != 0 ==> has_bit(v, msb(v) as u32),
        forall|j: u32| msb(v) < j ==> !has_bit(v, j),
    decreases v,
{
    if v <= 1 {
        lemma_bits_of_one(0);
        assert forall|j: u32| msb(v) < j implies !has_bit(v, j) by {
            lemma_bits_of_one(j);
        }
    } else {
        let w: u32 = v / 2;
        lemma_msb_is_highest(w);
        let m = msb(w) as u32;
        lemma_half_bits(v, (m + 1) as u32);
        assert forall|j: u32| msb(v) < j implies !has_bit(v, j) by {
            lemma_half_bits(v, j);
        }
    }
}

/// Only one position can be the highest task of a mask.
pub proof fn lemma_msb_unique(v: u32, i: u32)
    requires
        has_bit(v, i),
        forall|j: u32| i < j ==> !has_bit(v, j),
    ensures
        msb(v) == i,
{
    lemma_msb_is_highest(v);
    lemma_bits_of_one(i);
}

/// The mask of the one task `tid`.
pub fn task_bit(tid: u32) -> (mask: u32)
    ensures
        mask == bit(tid),
{
    if tid < 32 {
        1u32 << tid
    } else {
        0
    }
}

/// Builds the mask of the tasks listed in `tasks`. Identifiers that name no
/// task are passed over.
pub fn generate_task_mask(tasks: &[u32]) -> (mask: u32)
    ensures
        mask == mask_of(tasks@),
        forall|t: u32| has_bit(mask, t) == (t < 32 && tasks@.contains(t)),
{
    let mut task_mask: u32 = 0;
    let mut i: usize = 0;
    while i < tasks.len()
        invariant
            i <= tasks.len(),
            task_mask == mask_of(tasks@.take(i as int)),
        decreases tasks.len() - i,
    {
        proof {
            assert(tasks@.take(i + 1).drop_last() == tasks@.take(i as int));
        }
        task_mask = task_mask | task_bit(tasks[i]);
        i += 1;
    }
    proof {
        assert(tasks@.take(i as int) == tasks@);
        assert forall|t: u32| has_bit(task_mask, t) == (t < 32 && tasks@.contains(t)) by {
            lemma_mask_of_members(tasks@, t);
        }
    }
    task_mask
}

/// Position of the most significant set bit of `val`; 0 when `val` is 0.
pub fn get_msb(val: &u32) -> (index: usize)
    ensures
        index == msb(*val),
        index < 32,
        *val != 0 ==> has_bit(*val, index as u32),
        forall|j: u32| index < j ==> !has_bit(*val, j),
{
    let mut rest: u32 = *val;
    let mut index: usize = 0;
    proof {
        lemma_msb_is_highest(*val);
    }
    while rest > 1
        invariant
            msb(*val) == index + msb(rest),
            msb(*val) < 32,
        decreases rest,
    {
        assert(rest >> 1 == rest / 2) by (bit_vector);
        rest = rest >> 1;
        index += 1;
    }
    index
}

} // verus!
