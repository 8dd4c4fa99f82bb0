//! A slot allocator that always hands out the lowest free slot.
use vstd::prelude::*;

use crate::experimental::minifying::islotallocator::{
    allocations, allocator_run, wrapping_next, ISlotAllocator, SlotOp,
};

verus! {

/// The slots in strictly increasing order.
pub open spec fn strictly_increasing(s: Seq<i32>) -> bool {
    forall|i: int, j: int| 0 <= i < j < s.len() ==> s[i] < s[j]
}

/// The number of slots of `s` below `x`.
pub open spec fn count_below(s: Seq<i32>, x: i32) -> nat
    decreases s.len(),
{
    if s.len() == 0 {
        0
    } else {
        count_below(s.drop_last(), x) + if s.last() < x {
            1nat
        } else {
            0nat
        }
    }
}

/// `s` with `x` put in its place in the order.
pub open spec fn insert_sorted(s: Seq<i32>, x: i32) -> Seq<i32> {
    let k = count_below(s, x) as int;
    s.take(k) + seq![x] + s.skip(k)
}

/// The free slots (in increasing order) and the next new slot, after an
/// allocation, with the slot allocated: the lowest free slot if there is one,
/// else the next new slot.
pub open spec fn sorted_allocate(free: Seq<i32>, current: i32) -> (i32, Seq<i32>, i32) {
    if free.len() > 0 {
        (free[0], free.drop_first(), current)
    } else {
        (current, free, wrapping_next(current))
    }
}

/// The sorted slot allocator: it always uses the lowest free slot.
pub struct SortedSlotAllocator {
    free_slots: Vec<i32>,
    current_slot: i32,
}

impl SortedSlotAllocator {
    /// The free slots, in increasing order.
    pub closed spec fn free(&self) -> Seq<i32> {
        self.free_slots@
    }

    /// The next slot never handed out before.
    pub closed spec fn current(&self) -> i32 {
        self.current_slot
    }

    #[verifier::type_invariant]
    closed spec fn sorted_free(&self) -> bool {
        strictly_increasing(self.free_slots@)
    }

    /// The free slots are kept in strictly increasing order.
    pub fn free_is_sorted(&self)
        ensures
            strictly_increasing(self.free()),
    {
        proof {
            use_type_invariant(self);
        }
    }

    /// Creates a new sorted slot allocator.
    pub fn new() -> (r: Self)
        ensures
            r.free() == Seq::<i32>::empty(),
            r.current() == 0,
    {
        SortedSlotAllocator { free_slots: Vec::new(), current_slot: 0 }
    }
}

impl Default for SortedSlotAllocator {
    fn default() -> (r: Self)
        ensures
            r.free() == Seq::<i32>::empty(),
            r.current() == 0,
    {
        Self::new()
    }
}

proof fn lemma_count_below(s: Seq<i32>, x: i32)
    requires
        strictly_increasing(s),
    ensures
        count_below(s, x) <= s.len(),
        forall|i: int| 0 <= i < count_below(s, x) ==> s[i] < x,
        forall|i: int| count_below(s, x) <= i < s.len() ==> s[i] >= x,
    decreases s.len(),
{
    if s.len() > 0 {
        let t = s.drop_last();
        assert(strictly_increasing(t));
        lemma_count_below(t, x);
        if s.last() < x {
            assert forall|i: int| 0 <= i < count_below(s, x) implies s[i] < x by {
                if i < t.len() {
                    assert(s[i] == t[i]);
                }
            }
            assert(count_below(t, x) == t.len()) by {
                if count_below(t, x) < t.len() {
                    let j = count_below(t, x) as int;
                    assert(s[j] < s.last());
                }
            }
        } else {
            assert forall|i: int| 0 <= i < count_below(s, x) implies s[i] < x by {
                assert(s[i] == t[i]);
            }
            assert forall|i: int| count_below(s, x) <= i < s.len() implies s[i] >= x by {
                if i < t.len() {
                    assert(s[i] == t[i]);
                }
            }
        }
    }
}

impl ISlotAllocator for SortedSlotAllocator {
    /// The free slots, in increasing order, and the next new slot.
    type Model = (Seq<i32>, i32);

    open spec fn model(&self) -> (Seq<i32>, i32) {
        (self.free(), self.current())
    }

    open spec fn allocate_spec(m: (Seq<i32>, i32)) -> (i32, (Seq<i32>, i32)) {
        let (slot, free, current) = sorted_allocate(m.0, m.1);
        (slot, (free, current))
    }

    open spec fn release_spec(m: (Seq<i32>, i32), slot: i32) -> (Seq<i32>, i32) {
        (insert_sorted(m.0, slot), m.1)
    }

    open spec fn can_release(m: (Seq<i32>, i32), slot: i32) -> bool {
        !m.0.contains(slot)
    }

    /// The lowest free slot, or else the next new slot.
    fn allocate_slot(&mut self) -> (r: i32) {
        proof {
            use_type_invariant(&*self);
        }
        if self.free_slots.len() > 0 {
            let ghost before = self.free_slots@;
            let mut v: Vec<i32> = Vec::new();
            std::mem::swap(&mut v, &mut self.free_slots);
            let slot = v.remove(0);
            proof {
                assert(v@ =~= before.drop_first());
                assert(strictly_increasing(v@));
            }
            self.free_slots = v;
            slot
        } else {
            let slot = self.current_slot;
            self.current_slot = if self.current_slot == i32::MAX {
                i32::MIN
            } else {
                self.current_slot + 1
            };
            slot
        }
    }

    /// Puts `slot` back among the free slots.
    fn release_slot(&mut self, slot: i32) {
        proof {
            use_type_invariant(&*self);
            lemma_count_below(self.free_slots@, slot);
        }
        let ghost before = self.free_slots@;
        let mut i: usize = 0;
        while i < self.free_slots.len() && self.free_slots[i] < slot
            invariant
                i <= before.len(),
                self.free_slots@ == before,
                self.current_slot == old(self).current_slot,
                forall|k: int| 0 <= k < i ==> before[k] < slot,
                i <= count_below(before, slot),
                strictly_increasing(before),
                count_below(before, slot) <= before.len(),
                forall|k: int| count_below(before, slot) <= k < before.len() ==> before[k] >= slot,
            decreases before.len() - i,
        {
            i = i + 1;
        }
        proof {
            if i < count_below(before, slot) {
                assert(before[i as int] < slot);
            }
            assert(i == count_below(before, slot));
        }
        let mut v: Vec<i32> = Vec::new();
        std::mem::swap(&mut v, &mut self.free_slots);
        v.insert(i, slot);
        proof {
            let after = v@;
            assert(after =~= insert_sorted(before, slot));
            assert forall|a: int, b: int| 0 <= a < b < after.len() implies after[a] < after[b] by {
                if b < i {
                } else if b == i {
                } else if a < i {
                    assert(after[b] == before[b - 1]);
                } else if a == i {
                    assert(after[b] == before[b - 1]);
                    assert(before[b - 1] >= slot);
                    assert(before[b - 1] != slot);
                } else {
                    assert(after[a] == before[a - 1]);
                    assert(after[b] == before[b - 1]);
                }
            }
        }
        self.free_slots = v;
    }
}

/// The slot allocated is the lowest free one: no free slot is below it.
pub proof fn law_sorted_allocates_lowest(free: Seq<i32>, current: i32)
    requires
        strictly_increasing(free),
        free.len() > 0,
    ensures
        forall|i: int| 0 <= i < free.len() ==> sorted_allocate(free, current).0 <= free[i],
        free.contains(sorted_allocate(free, current).0),
{
    assert(free[0] == sorted_allocate(free, current).0);
}

/// A slot released while lower than every free slot is the next one
/// allocated.
pub proof fn law_sorted_reuses_released(free: Seq<i32>, current: i32, slot: i32)
    requires
        strictly_increasing(free),
        forall|i: int| 0 <= i < free.len() ==> slot < free[i],
    ensures
        sorted_allocate(insert_sorted(free, slot), current).0 == slot,
        sorted_allocate(insert_sorted(free, slot), current).1 == free,
{
    lemma_count_below(free, slot);
    if count_below(free, slot) > 0 {
        assert(free[0] < slot);
    }
    assert(insert_sorted(free, slot) =~= seq![slot] + free);
    assert((seq![slot] + free).drop_first() =~= free);
}

/// Inserting a slot that is not free keeps the free slots in order, and
/// adds just that slot.
proof fn lemma_insert_sorted(s: Seq<i32>, x: i32)
    requires
        strictly_increasing(s),
        !s.contains(x),
    ensures
        strictly_increasing(insert_sorted(s, x)),
        forall|y: i32| insert_sorted(s, x).contains(y) <==> (s.contains(y) || y == x),
{
    lemma_count_below(s, x);
    let k = count_below(s, x) as int;
    let r = insert_sorted(s, x);
    assert(r.len() == s.len() + 1);
    assert forall|i: int| 0 <= i < r.len() implies r[i] == (if i < k {
        s[i]
    } else if i == k {
        x
    } else {
        s[i - 1]
    }) by {}
    assert forall|a: int, b: int| 0 <= a < b < r.len() implies r[a] < r[b] by {
        if b < k {
        } else if b == k {
        } else if a < k {
            assert(s[b - 1] >= x);
            assert(s[b - 1] != x);
        } else if a == k {
            assert(s[b - 1] >= x);
            assert(s[b - 1] != x);
        } else {
        }
    }
    assert forall|y: i32| r.contains(y) implies (s.contains(y) || y == x) by {
        let i = choose|i: int| 0 <= i < r.len() && r[i] == y;
        if i < k {
            assert(s[i] == y);
        } else if i > k {
            assert(s[i - 1] == y);
        }
    }
    assert forall|y: i32| (s.contains(y) || y == x) implies r.contains(y) by {
        if y == x {
            assert(r[k] == x);
        } else {
            let i = choose|i: int| 0 <= i < s.len() && s[i] == y;
            if i < k {
                assert(r[i] == y);
            } else {
                assert(r[i + 1] == y);
            }
        }
    }
}

/// The slots that a run of calls on a new sorted allocator leaves
/// allocated: each allocation adds its slot, each release takes its slot
/// away.
pub open spec fn live_slots(ops: Seq<SlotOp>) -> Set<i32>
    decreases ops.len(),
{
    if ops.len() == 0 {
        Set::empty()
    } else {
        let prev = live_slots(ops.drop_last());
        match ops.last() {
            SlotOp::Allocate => prev.insert(
                allocator_run::<SortedSlotAllocator>((Seq::empty(), 0i32), ops).0.last(),
            ),
            SlotOp::Release(s) => prev.remove(s),
        }
    }
}

/// Every release in the run releases a slot that is allocated at that
/// point.
pub open spec fn releases_live(ops: Seq<SlotOp>) -> bool {
    forall|i: int|
        0 <= i < ops.len() ==> match #[trigger] ops[i] {
            SlotOp::Release(s) => live_slots(ops.take(i)).contains(s),
            SlotOp::Allocate => true,
        }
}

/// What a run from a new sorted allocator keeps: the free slots are in
/// order, and the slots below the next new one are each either allocated
/// or free.
pub open spec fn sorted_run_inv(ops: Seq<SlotOp>) -> bool {
    let m = allocator_run::<SortedSlotAllocator>((Seq::empty(), 0i32), ops).1;
    let live = live_slots(ops);
    &&& strictly_increasing(m.0)
    &&& 0 <= m.1 <= allocations(ops)
    &&& forall|x: i32| (0 <= x < m.1) <==> (live.contains(x) || m.0.contains(x))
    &&& forall|x: i32| !(live.contains(x) && m.0.contains(x))
}

proof fn lemma_sorted_run_inv(ops: Seq<SlotOp>)
    requires
        releases_live(ops),
        allocations(ops) <= i32::MAX,
    ensures
        sorted_run_inv(ops),
    decreases ops.len(),
{
    if ops.len() > 0 {
        let prev = ops.drop_last();
        assert(releases_live(prev)) by {
            assert forall|i: int| 0 <= i < prev.len() implies match #[trigger] prev[i] {
                SlotOp::Release(s) => live_slots(prev.take(i)).contains(s),
                SlotOp::Allocate => true,
            } by {
                assert(prev[i] == ops[i]);
                assert(prev.take(i) =~= ops.take(i));
            }
        }
        lemma_sorted_run_inv(prev);
        let m = allocator_run::<SortedSlotAllocator>((Seq::empty(), 0i32), prev).1;
        let live = live_slots(prev);
        let m2 = allocator_run::<SortedSlotAllocator>((Seq::empty(), 0i32), ops).1;
        let live2 = live_slots(ops);
        match ops.last() {
            SlotOp::Allocate => {
                if m.0.len() > 0 {
                    assert(m.0.contains(m.0[0]));
                    assert forall|x: i32| m.0.drop_first().contains(x) <==> (m.0.contains(x) && x
                        != m.0[0]) by {
                        if m.0.drop_first().contains(x) {
                            let i = choose|i: int|
                                0 <= i < m.0.drop_first().len() && m.0.drop_first()[i] == x;
                            assert(m.0[i + 1] == x);
                        }
                        if m.0.contains(x) && x != m.0[0] {
                            let i = choose|i: int| 0 <= i < m.0.len() && m.0[i] == x;
                            assert(m.0.drop_first()[i - 1] == x);
                        }
                    }
                    assert(m2.0 == m.0.drop_first() && m2.1 == m.1);
                    assert(live2 == live.insert(m.0[0]));
                    assert forall|x: i32| (0 <= x < m2.1) <==> (live2.contains(x) || m2.0.contains(
                        x,
                    )) by {
                        assert((0 <= x < m.1) <==> (live.contains(x) || m.0.contains(x)));
                    }
                } else {
                    assert(m2.0 == m.0 && m2.1 == m.1 + 1);
                    assert(live2 == live.insert(m.1));
                    assert(!live.contains(m.1) || m.0.contains(m.1));
                    assert forall|x: i32| (0 <= x < m2.1) <==> (live2.contains(x) || m2.0.contains(
                        x,
                    )) by {
                        assert((0 <= x < m.1) <==> (live.contains(x) || m.0.contains(x)));
                    }
                }
            },
            SlotOp::Release(s) => {
                assert(ops[ops.len() - 1] == ops.last());
                assert(ops.take(ops.len() - 1) =~= prev);
                assert(live.contains(s));
                lemma_insert_sorted(m.0, s);
                assert(m2.0 == insert_sorted(m.0, s) && m2.1 == m.1);
                assert(live2 == live.remove(s));
                assert forall|x: i32| (0 <= x < m2.1) <==> (live2.contains(x) || m2.0.contains(x)) by {
                    assert((0 <= x < m.1) <==> (live.contains(x) || m.0.contains(x)));
                    assert(!(live.contains(x) && m.0.contains(x)));
                }
                assert forall|x: i32| !(live2.contains(x) && m2.0.contains(x)) by {
                    assert(!(live.contains(x) && m.0.contains(x)));
                }
            },
        }
    }
}

/// After any run of allocations and releases on a new sorted allocator
/// (each release of a slot allocated at that point, and at most `i32::MAX`
/// allocations), the next allocation gives the lowest slot that is not
/// currently allocated.
pub proof fn law_sorted_gives_lowest_unallocated(ops: Seq<SlotOp>)
    requires
        releases_live(ops),
        allocations(ops) <= i32::MAX,
    ensures
        ({
            let slot = SortedSlotAllocator::allocate_spec(
                allocator_run::<SortedSlotAllocator>((Seq::empty(), 0i32), ops).1,
            ).0;
            &&& slot >= 0
            &&& !live_slots(ops).contains(slot)
            &&& forall|y: i32| 0 <= y < slot ==> live_slots(ops).contains(y)
        }),
{
    lemma_sorted_run_inv(ops);
    let m = allocator_run::<SortedSlotAllocator>((Seq::empty(), 0i32), ops).1;
    let live = live_slots(ops);
    if m.0.len() > 0 {
        assert(m.0.contains(m.0[0]));
        assert(!live.contains(m.0[0]));
        assert(0 <= m.0[0] < m.1);
        assert forall|y: i32| 0 <= y < m.0[0] implies live.contains(y) by {
            assert(0 <= y < m.1);
            if m.0.contains(y) {
                let i = choose|i: int| 0 <= i < m.0.len() && m.0[i] == y;
                if i > 0 {
                    assert(m.0[0] < m.0[i]);
                }
            }
            assert(live.contains(y) || m.0.contains(y));
        }
    } else {
        assert(!(0 <= m.1 < m.1));
        assert(!live.contains(m.1) || m.0.contains(m.1));
        assert forall|y: i32| 0 <= y < m.1 implies live.contains(y) by {
            assert(live.contains(y) || m.0.contains(y));
        }
    }
}

} // verus!
