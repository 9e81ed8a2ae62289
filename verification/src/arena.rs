//! A slot arena for projectiles with generation-counted handles.
//!
//! Removing a projectile vacates its slot; inserting reuses the first
//! vacant slot under a bumped generation, so a stale handle to the old
//! occupant resolves to nothing instead of to the new one.

use crate::entities::{ProjHandle, Projectile};
use vstd::pervasive::VecAdditionalExecFns;
use vstd::prelude::*;

verus! {

/// Largest slot count the arena will grow to.
pub const ARENA_CAP: usize = 1_000_000;

#[derive(Clone, Copy, PartialEq, Eq, Structural, Debug)]
pub struct ProjSlot {
    pub gen: u64,
    pub item: Option<Projectile>,
}

pub struct ProjArena {
    pub slots: Vec<ProjSlot>,
}

impl ProjArena {
    /// A live handle: in range, matching generation, occupied slot.
    pub open spec fn valid_handle(self, h: ProjHandle) -> bool {
        &&& h.idx < self.slots@.len()
        &&& self.slots@[h.idx as int].gen == h.gen
        &&& self.slots@[h.idx as int].item is Some
    }

    /// What a handle resolves to; stale or vacant handles give nothing.
    pub open spec fn spec_get(self, h: ProjHandle) -> Option<Projectile> {
        if self.valid_handle(h) {
            self.slots@[h.idx as int].item
        } else {
            None
        }
    }

    /// The occupant of slot `i`, if any.
    pub open spec fn spec_at(self, i: int) -> Option<Projectile> {
        if 0 <= i < self.slots@.len() {
            self.slots@[i].item
        } else {
            None
        }
    }

    /// Every live projectile is well-formed.
    pub open spec fn wf(self) -> bool {
        forall|i: int| 0 <= i < self.slots@.len() ==> ((#[trigger] self.slots@[i].item) matches
            Some(p) ==> p.wf())
    }

    pub fn new() -> (r: ProjArena)
        ensures
            r.slots@.len() == 0,
            r.wf(),
    {
        ProjArena { slots: Vec::new() }
    }

    pub fn slot_count(&self) -> (r: usize)
        ensures
            r == self.slots@.len(),
    {
        self.slots.len()
    }

    pub fn get_at(&self, i: usize) -> (r: Option<Projectile>)
        ensures
            r == self.spec_at(i as int),
    {
        if i < self.slots.len() {
            self.slots[i].item
        } else {
            None
        }
    }

    /// The handle that currently designates the occupant of slot `i`.
    pub fn handle_at(&self, i: usize) -> (h: ProjHandle)
        requires
            i < self.slots@.len(),
            self.slots@[i as int].item is Some,
        ensures
            h.idx == i,
            self.valid_handle(h),
            self.spec_get(h) == self.slots@[i as int].item,
    {
        ProjHandle { idx: i, gen: self.slots[i].gen }
    }

    pub fn get(&self, h: ProjHandle) -> (r: Option<Projectile>)
        ensures
            r == self.spec_get(h),
    {
        if h.idx < self.slots.len() {
            let slot = self.slots[h.idx];
            if slot.gen == h.gen {
                slot.item
            } else {
                None
            }
        } else {
            None
        }
    }

    /// Insert into the first vacant slot (under a fresh generation), or
    /// grow by one slot.  Every handle that resolved before still
    /// resolves to the same projectile, and the new handle is distinct
    /// from all of them.
    pub fn insert(&mut self, p: Projectile) -> (h: ProjHandle)
        requires
            old(self).wf(),
            p.wf(),
            old(self).slots@.len() < 100_000_000,
        ensures
            final(self).wf(),
            final(self).valid_handle(h),
            final(self).spec_get(h) == Some(p),
            final(self).slots@.len() <= old(self).slots@.len() + 1,
            final(self).spec_live_below(final(self).slots@.len() as int) == old(self).spec_live_below(old(self).slots@.len() as int) + 1,
            forall|h2: ProjHandle| old(self).spec_get(h2) is Some ==> final(self).spec_get(h2)
                == old(self).spec_get(h2) && h2 != h,
            forall|h2: ProjHandle| final(self).spec_get(h2) is Some ==> old(self).spec_get(h2)
                is Some || h2 == h,
            forall|i: int| 0 <= i < old(self).slots@.len() && i != h.idx ==> final(self).slots@[i]
                == old(self).slots@[i],
    {
        let n = self.slots.len();
        let mut i: usize = 0;
        while i < n
            invariant
                n == self.slots@.len(),
                0 <= i <= n,
                *self == *old(self),
                old(self).wf(),
                p.wf(),
                forall|j: int| 0 <= j < i ==> (#[trigger] self.slots@[j].item) is Some,
            decreases n - i,
        {
            if self.slots[i].item.is_none() {
                let g = self.slots[i].gen.wrapping_add(1);
                let slot = ProjSlot { gen: g, item: Some(p) };
                self.slots.set(i, slot);
                let h = ProjHandle { idx: i, gen: g };
                proof {
                    assert forall|h2: ProjHandle| old(self).spec_get(h2) is Some implies self
                        .spec_get(h2) == old(self).spec_get(h2) && h2 != h by {
                        assert(h2.idx != i);
                    }
                    assert forall|j: int| 0 <= j < self.slots@.len() implies ((
                    #[trigger] self.slots@[j].item) matches Some(q) ==> q.wf()) by {
                        if j != i {
                            assert(self.slots@[j] == old(self).slots@[j]);
                            assert(old(self).slots@[j].item matches Some(q) ==> q.wf());
                        } else {
                            assert(self.slots@[j].item == Some(p));
                        }
                    }
                    lemma_live_below_fill(*old(self), *self, i as int, n as int);
                }
                return h;
            }
            i = i + 1;
        }
        let slot = ProjSlot { gen: 0, item: Some(p) };
        self.slots.push(slot);
        let h = ProjHandle { idx: n, gen: 0 };
        proof {
            assert forall|h2: ProjHandle| old(self).spec_get(h2) is Some implies self.spec_get(h2)
                == old(self).spec_get(h2) && h2 != h by {
                assert(h2.idx != n);
            }
            lemma_live_below_congruent(*old(self), *self, n as int);
        }
        h
    }

    /// Overwrite the projectile a live handle designates.
    pub fn set(&mut self, h: ProjHandle, p: Projectile)
        requires
            old(self).wf(),
            old(self).valid_handle(h),
            p.wf(),
        ensures
            final(self).wf(),
            final(self).valid_handle(h),
            final(self).spec_get(h) == Some(p),
            final(self).slots@.len() == old(self).slots@.len(),
            forall|h2: ProjHandle| h2 != h ==> final(self).spec_get(h2) == old(self).spec_get(h2),
            forall|i: int| 0 <= i < old(self).slots@.len() && i != h.idx ==> final(self).slots@[i]
                == old(self).slots@[i],
    {
        let slot = ProjSlot { gen: h.gen, item: Some(p) };
        self.slots.set(h.idx, slot);
        proof {
            assert forall|h2: ProjHandle| h2 != h implies self.spec_get(h2) == old(self).spec_get(
                h2,
            ) by {
                if h2.idx == h.idx {
                    assert(h2.gen != h.gen);
                }
            }
        }
    }

    /// Vacate the slot a handle designates, if it is live; every other
    /// handle keeps resolving as before.
    pub fn remove(&mut self, h: ProjHandle) -> (r: Option<Projectile>)
        requires
            old(self).wf(),
        ensures
            final(self).wf(),
            r == old(self).spec_get(h),
            final(self).spec_get(h) is None,
            final(self).slots@.len() == old(self).slots@.len(),
            forall|h2: ProjHandle| h2 != h ==> final(self).spec_get(h2) == old(self).spec_get(h2),
            forall|i: int| 0 <= i < old(self).slots@.len() && i != h.idx ==> final(self).slots@[i]
                == old(self).slots@[i],
    {
        if h.idx < self.slots.len() {
            let slot = self.slots[h.idx];
            if slot.gen == h.gen && slot.item.is_some() {
                let vacated = ProjSlot { gen: slot.gen, item: None };
                self.slots.set(h.idx, vacated);
                proof {
                    assert forall|h2: ProjHandle| h2 != h implies self.spec_get(h2) == old(self).spec_get(h2) by {
                        if h2.idx == h.idx {
                            assert(h2.gen != h.gen);
                        }
                    }
                }
                return slot.item;
            }
        }
        None
    }

    /// Insert unless the arena has grown to [`ARENA_CAP`] slots; a full
    /// arena refuses the projectile and changes nothing.
    pub fn try_insert(&mut self, p: Projectile) -> (r: Option<ProjHandle>)
        requires
            old(self).wf(),
            p.wf(),
        ensures
            final(self).wf(),
            final(self).slots@.len() <= old(self).slots@.len() + 1,
            r is Some ==> final(self).spec_live_below(final(self).slots@.len() as int) == old(self).spec_live_below(old(self).slots@.len() as int) + 1,
            forall|h2: ProjHandle| old(self).spec_get(h2) is Some ==> final(self).spec_get(h2)
                == old(self).spec_get(h2),
            r matches Some(h) ==> final(self).valid_handle(h) && final(self).spec_get(h) == Some(p)
                && (forall|h2: ProjHandle| old(self).spec_get(h2) is Some ==> h2 != h)
                && (forall|h2: ProjHandle| final(self).spec_get(h2) is Some ==> old(self).spec_get(h2) is Some || h2 == h),
            old(self).slots@.len() < ARENA_CAP ==> r is Some,
            r is None ==> *final(self) == *old(self),
    {
        if self.slots.len() < ARENA_CAP {
            Some(self.insert(p))
        } else {
            None
        }
    }

    /// How many of the first `i` slots are occupied.
    pub open spec fn spec_live_below(self, i: int) -> int
        decreases i,
    {
        if i <= 0 {
            0
        } else {
            self.spec_live_below(i - 1) + if self.slots@[i - 1].item is Some {
                1int
            } else {
                0int
            }
        }
    }

    /// How many slots are currently occupied.
    pub fn live_count(&self) -> (r: usize)
        ensures
            r == self.spec_live_below(self.slots@.len() as int),
            r <= self.slots@.len(),
    {
        let mut c: usize = 0;
        let mut i: usize = 0;
        let n = self.slots.len();
        while i < n
            invariant
                n == self.slots@.len(),
                0 <= i <= n,
                c == self.spec_live_below(i as int),
                c <= i,
            decreases n - i,
        {
            if self.slots[i].item.is_some() {
                c = c + 1;
            }
            i = i + 1;
        }
        c
    }
}


/// The live count only reads the slot prefix it covers.
proof fn lemma_live_below_congruent(a: ProjArena, b: ProjArena, n: int)
    requires
        0 <= n <= a.slots@.len(),
        n <= b.slots@.len(),
        forall|j: int| 0 <= j < n ==> a.slots@[j] == b.slots@[j],
    ensures
        a.spec_live_below(n) == b.spec_live_below(n),
    decreases n,
{
    if n > 0 {
        lemma_live_below_congruent(a, b, n - 1);
    }
}

/// Filling one vacant slot raises the live count by one.
proof fn lemma_live_below_fill(a: ProjArena, b: ProjArena, i: int, n: int)
    requires
        0 <= i < n <= a.slots@.len(),
        n <= b.slots@.len(),
        a.slots@[i].item is None,
        b.slots@[i].item is Some,
        forall|j: int| 0 <= j < n && j != i ==> a.slots@[j] == b.slots@[j],
    ensures
        b.spec_live_below(n) == a.spec_live_below(n) + 1,
    decreases n,
{
    if i == n - 1 {
        lemma_live_below_congruent(a, b, n - 1);
    } else {
        lemma_live_below_fill(a, b, i, n - 1);
    }
}

} // verus!
