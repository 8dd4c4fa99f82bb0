//! Slot allocation for renaming.
use vstd::prelude::*;

verus! {

/// The slot allocator to use for renaming.
///
/// Each allocator describes its state by a model value, and how allocating
/// and releasing change that model.
pub trait ISlotAllocator: Sized {
    /// What the allocator's state is made of.
    type Model;

    /// The allocator's state.
    spec fn model(&self) -> Self::Model;

    /// The slot that allocating hands out in state `m`, and the state after.
    spec fn allocate_spec(m: Self::Model) -> (i32, Self::Model);

    /// The state after releasing `slot` in state `m`.
    spec fn release_spec(m: Self::Model, slot: i32) -> Self::Model;

    /// Whether `slot` may be released in state `m`.
    spec fn can_release(m: Self::Model, slot: i32) -> bool;

    /// Allocates a slot for a variable and returns it.
    fn allocate_slot(&mut self) -> (r: i32)
        ensures
            (r, final(self).model()) == Self::allocate_spec(old(self).model()),
    ;

    /// Releases a slot for usage by other variables.
    fn release_slot(&mut self, slot: i32)
        requires
            Self::can_release(old(self).model(), slot),
        ensures
            final(self).model() == Self::release_spec(old(self).model(), slot),
    ;
}

/// The slot after `x`, wrapping around at the end of the `i32` range.
pub open spec fn wrapping_next(x: i32) -> i32 {
    if x == i32::MAX {
        i32::MIN
    } else {
        (x + 1) as i32
    }
}

/// One call on a slot allocator.
#[derive(Debug, Clone, Copy, PartialEq, Eq, Structural)]
pub enum SlotOp {
    /// `allocate_slot`.
    Allocate,
    /// `release_slot` of the given slot.
    Release(i32),
}

/// The slots that a run of calls hands out, in order, and the state after
/// them, starting in state `m`.
pub open spec fn allocator_run<A: ISlotAllocator>(m: A::Model, ops: Seq<SlotOp>) -> (Seq<i32>, A::Model)
    decreases ops.len(),
{
    if ops.len() == 0 {
        (Seq::empty(), m)
    } else {
        let (slots, m1) = allocator_run::<A>(m, ops.drop_last());
        match ops.last() {
            SlotOp::Allocate => {
                let (slot, m2) = A::allocate_spec(m1);
                (slots.push(slot), m2)
            },
            SlotOp::Release(slot) => (slots, A::release_spec(m1, slot)),
        }
    }
}

/// The number of allocations in a run of calls.
pub open spec fn allocations(ops: Seq<SlotOp>) -> nat
    decreases ops.len(),
{
    if ops.len() == 0 {
        0
    } else {
        allocations(ops.drop_last()) + if ops.last() == SlotOp::Allocate {
            1nat
        } else {
            0nat
        }
    }
}

} // verus!
