//! A slot allocator that never hands out a slot twice.
use vstd::prelude::*;

use crate::experimental::minifying::islotallocator::{
    allocations, allocator_run, wrapping_next, ISlotAllocator, SlotOp,
};

verus! {

/// A sequential slot allocator: never returns previously used slots and is
/// the fastest one.
pub struct SequentialSlotAllocator {
    slot: i32,
}

impl SequentialSlotAllocator {
    /// The last slot handed out (-1 before the first).
    pub closed spec fn last(&self) -> i32 {
        self.slot
    }

    /// Creates a new sequential slot allocator.
    pub fn new() -> (r: Self)
        ensures
            r.last() == -1,
    {
        SequentialSlotAllocator { slot: -1 }
    }
}

impl Default for SequentialSlotAllocator {
    fn default() -> (r: Self)
        ensures
            r.last() == -1,
    {
        Self::new()
    }
}

impl ISlotAllocator for SequentialSlotAllocator {
    type Model = i32;

    open spec fn model(&self) -> i32 {
        self.last()
    }

    open spec fn allocate_spec(m: i32) -> (i32, i32) {
        (wrapping_next(m), wrapping_next(m))
    }

    open spec fn release_spec(m: i32, slot: i32) -> i32 {
        m
    }

    open spec fn can_release(m: i32, slot: i32) -> bool {
        true
    }

    /// The slot after the last one.
    fn allocate_slot(&mut self) -> (r: i32) {
        self.slot = if self.slot == i32::MAX {
            i32::MIN
        } else {
            self.slot + 1
        };
        self.slot
    }

    /// Releasing changes nothing.
    fn release_slot(&mut self, slot: i32) {
    }
}

/// Two allocations in a row give two slots in increasing order, unless the
/// `i32` range wraps around.
pub proof fn law_sequential_never_repeats(a: i32)
    requires
        a < i32::MAX - 1,
    ensures
        wrapping_next(a) < wrapping_next(wrapping_next(a)),
{
}

/// From a new allocator, any run of allocations and releases hands out the
/// slots 0, 1, 2, ... in order, the `k`-th allocation giving `k`, and
/// releasing has no effect; the run makes at most `i32::MAX + 1`
/// allocations, so that the `i32` range does not wrap around.
pub proof fn law_sequential_kth_allocation(ops: Seq<SlotOp>)
    requires
        allocations(ops) <= i32::MAX + 1,
    ensures
        allocator_run::<SequentialSlotAllocator>(-1i32, ops).0.len() == allocations(ops),
        forall|k: int|
            0 <= k < allocator_run::<SequentialSlotAllocator>(-1i32, ops).0.len()
                ==> #[trigger] allocator_run::<SequentialSlotAllocator>(-1i32, ops).0[k] == k,
        allocator_run::<SequentialSlotAllocator>(-1i32, ops).1 == allocator_run::<
            SequentialSlotAllocator,
        >(-1i32, ops).0.len() - 1,
    decreases ops.len(),
{
    if ops.len() > 0 {
        law_sequential_kth_allocation(ops.drop_last());
    }
}

} // verus!
