//! Generational handle table for host-owned resources.
//!
//! Objects owned by the host (database connections, row cursors) are handed
//! to a guest as opaque `u32` indices.  Each slot carries a generation that
//! is bumped every time the slot is reused, so a handle that was deleted can
//! never reach a live object again: every operation on it fails with
//! [`StaleError`].

use vstd::prelude::*;
use vstd::pervasive::VecAdditionalExecFns;

verus! {

/// A handle delivered across the guest boundary: a slot index, the slot
/// generation the handle was issued with, and whether the holder owns the
/// resource (only owned handles may be deleted).
#[derive(Clone, Copy, Debug, PartialEq, Eq, Structural)]
pub struct ResourceHandle {
    pub index: u32,
    pub generation: u32,
    pub owned: bool,
}

impl ResourceHandle {
    /// The same slot and generation, without ownership.
    pub fn borrowed(&self) -> (r: ResourceHandle)
        ensures
            r.index == self.index,
            r.generation == self.generation,
            !r.owned,
    {
        ResourceHandle { index: self.index, generation: self.generation, owned: false }
    }
}

/// The error returned for every operation on a handle that does not refer
/// to a live resource the holder may touch.
#[derive(Clone, Copy, Debug, PartialEq, Eq, Structural)]
pub struct StaleError;

enum Slot<T> {
    Free { generation: u32 },
    Live { generation: u32, payload: T },
}

impl<T> Slot<T> {
    spec fn generation(&self) -> u32 {
        match self {
            Slot::Free { generation } => *generation,
            Slot::Live { generation, .. } => *generation,
        }
    }
}

/// The generational table.  `issued` records every (index, generation)
/// pair ever handed out, so the contracts can say that a dead handle never
/// comes back to life.
pub struct ResourceTable<T> {
    slots: Vec<Slot<T>>,
    issued: Ghost<Set<(u32, u32)>>,
}

impl<T> ResourceTable<T> {
    /// A handle was issued by this table at some point.
    pub closed spec fn spec_issued(&self, h: ResourceHandle) -> bool {
        self.issued@.contains((h.index, h.generation))
    }

    /// The handle currently refers to a live resource.
    pub closed spec fn spec_live(&self, h: ResourceHandle) -> bool {
        &&& h.index < self.slots.len()
        &&& self.slots[h.index as int] is Live
        &&& self.slots[h.index as int].generation() == h.generation
    }

    /// The payload the handle refers to.
    pub closed spec fn spec_payload(&self, h: ResourceHandle) -> T
        recommends
            self.spec_live(h),
    {
        match self.slots[h.index as int] {
            Slot::Live { payload, .. } => payload,
            Slot::Free { .. } => arbitrary(),
        }
    }

    /// Every live slot holds a generation that was issued for it, and no
    /// handle has been issued beyond its slot's current generation; so a
    /// generation ahead of the slot has never been seen outside the table.
    pub closed spec fn wf(&self) -> bool {
        &&& self.slots.len() <= u32::MAX
        &&& forall|i: int|
            0 <= i < self.slots.len() && self.slots[i] is Live ==> self.issued@.contains(
                (i as u32, #[trigger] self.slots[i].generation()),
            )
        &&& forall|p: (u32, u32)|
            #[trigger] self.issued@.contains(p) ==> p.0 < self.slots.len() && p.1
                <= self.slots[p.0 as int].generation()
    }

    /// The number of slots the table currently holds.
    pub closed spec fn spec_len(&self) -> nat {
        self.slots.len() as nat
    }

    /// An empty table.
    pub fn new() -> (r: ResourceTable<T>)
        ensures
            r.wf(),
            forall|h: ResourceHandle| !r.spec_live(h),
            forall|h: ResourceHandle| !r.spec_issued(h),
    {
        ResourceTable { slots: Vec::new(), issued: Ghost(Set::empty()) }
    }

    /// Store a payload and hand out an owned handle for it.  The handle is
    /// fresh: it was never issued before.  Every other live handle keeps its
    /// payload, and every handle that was already dead stays dead.
    pub fn push(&mut self, payload: T) -> (h: ResourceHandle)
        requires
            old(self).wf(),
            old(self).spec_len() < u32::MAX,
        ensures
            final(self).wf(),
            h.owned,
            final(self).spec_live(h),
            final(self).spec_payload(h) == payload,
            !old(self).spec_issued(h),
            final(self).spec_issued(h),
            forall|h2: ResourceHandle|
                old(self).spec_live(h2) ==> #[trigger] final(self).spec_live(h2) && final(self).spec_payload(h2) == old(self).spec_payload(h2),
            forall|h2: ResourceHandle|
                old(self).spec_issued(h2) && !old(self).spec_live(h2) ==> !final(self).spec_live(
                    h2,
                ) && #[trigger] final(self).spec_issued(h2),
            forall|h2: ResourceHandle| #[trigger] old(self).spec_issued(h2) ==> final(self).spec_issued(h2),
            forall|h2: ResourceHandle|
                #[trigger] final(self).spec_live(h2) && h2.index == h.index ==> final(self).spec_payload(h2) == payload && h2.generation == h.generation,
            forall|h2: ResourceHandle|
                #[trigger] final(self).spec_live(h2) && h2.index != h.index ==> old(self).spec_live(h2),
    {
        let n = self.slots.len();
        let mut i: usize = 0;
        while i < n
            invariant
                self == old(self),
                n == self.slots.len(),
                old(self).wf(),
                old(self).slots.len() < u32::MAX,
            decreases n - i,
        {
            let reusable = match &self.slots[i] {
                Slot::Free { generation } => *generation < u32::MAX - 1,
                Slot::Live { .. } => false,
            };
            if reusable {
                let generation = match &self.slots[i] {
                    Slot::Free { generation } => *generation + 1,
                    Slot::Live { .. } => 0,
                };
                let h = ResourceHandle { index: i as u32, generation, owned: true };
                self.slots.set(i, Slot::Live { generation, payload });
                proof {
                    self.issued@ = self.issued@.insert((h.index, h.generation));
                    assert(self.spec_live(h));
                    assert forall|h2: ResourceHandle| old(self).spec_live(h2) implies #[trigger]
                        self.spec_live(h2) && self.spec_payload(h2) == old(self).spec_payload(
                        h2,
                    ) by {
                        assert(h2.index != i as u32);
                    }
                }
                return h;
            }
            i += 1;
        }
        let generation: u32 = 0;
        let h = ResourceHandle { index: n as u32, generation, owned: true };
        self.slots.push(Slot::Live { generation, payload });
        proof {
            self.issued@ = self.issued@.insert((h.index, h.generation));
            assert(self.spec_live(h));
            assert forall|h2: ResourceHandle| old(self).spec_live(h2) implies #[trigger] self
                .spec_live(h2) && self.spec_payload(h2) == old(self).spec_payload(h2) by {
                assert(h2.index < n as u32);
            }
        }
        h
    }

    /// Read the resource a handle refers to.  Succeeds exactly when the
    /// handle is live.
    pub fn get(&self, h: ResourceHandle) -> (r: Result<&T, StaleError>)
        ensures
            r is Ok <==> self.spec_live(h),
            r matches Ok(p) ==> *p == self.spec_payload(h),
    {
        if (h.index as usize) < self.slots.len() {
            match &self.slots[h.index as usize] {
                Slot::Live { generation, payload } => {
                    if *generation == h.generation {
                        return Ok(payload);
                    }
                },
                Slot::Free { .. } => {},
            }
        }
        Err(StaleError)
    }

    /// Swap the payload a handle refers to, returning the old payload.
    /// Succeeds exactly when the handle is live; no other slot changes.
    pub fn replace(&mut self, h: ResourceHandle, payload: T) -> (r: Result<T, StaleError>)
        requires
            old(self).wf(),
        ensures
            final(self).wf(),
            r is Ok <==> old(self).spec_live(h),
            r matches Ok(p) ==> p == old(self).spec_payload(h) && final(self).spec_live(h) && final(self).spec_payload(h) == payload,
            r is Err ==> *final(self) == *old(self),
            forall|h2: ResourceHandle|
                #[trigger] final(self).spec_live(h2) <==> old(self).spec_live(h2),
            forall|h2: ResourceHandle|
                #[trigger] final(self).spec_issued(h2) <==> old(self).spec_issued(h2),
            forall|h2: ResourceHandle|
                old(self).spec_live(h2) && h2.index != h.index ==> #[trigger] final(self).spec_payload(h2) == old(self).spec_payload(h2),
            r is Ok ==> forall|h2: ResourceHandle|
                #[trigger] final(self).spec_live(h2) && h2.index == h.index ==> final(self).spec_payload(h2) == payload,
            r is Ok ==> forall|h2: ResourceHandle|
                #[trigger] old(self).spec_live(h2) && h2.index == h.index ==> old(self).spec_payload(h2) == old(self).spec_payload(h),
    {
        if (h.index as usize) < self.slots.len() {
            let live = match &self.slots[h.index as usize] {
                Slot::Live { generation, .. } => *generation == h.generation,
                Slot::Free { .. } => false,
            };
            if live {
                let generation = h.generation;
                let mut slot = Slot::Live { generation, payload };
                self.slots.set_and_swap(h.index as usize, &mut slot);
                proof {
                    assert(old(self).slots[h.index as int].generation() == h.generation);
                    assert(old(self).issued@.contains((h.index, h.generation)));
                    assert forall|i: int|
                        0 <= i < self.slots.len() && self.slots[i] is Live implies self
                        .issued@.contains((i as u32, #[trigger] self.slots[i].generation())) by {
                        if i != h.index as int {
                            assert(self.slots[i] == old(self).slots[i]);
                        }
                    }
                    assert forall|p: (u32, u32)| #[trigger]
                        self.issued@.contains(p) implies p.0 < self.slots.len() && p.1
                        <= self.slots[p.0 as int].generation() by {
                        if p.0 != h.index {
                            assert(self.slots[p.0 as int] == old(self).slots[p.0 as int]);
                        }
                    }
                }
                match slot {
                    Slot::Live { payload: old_payload, .. } => {
                        return Ok(old_payload);
                    },
                    Slot::Free { .. } => {
                        proof {
                            assert(false);
                        }
                        return Err(StaleError);
                    },
                }
            }
        }
        Err(StaleError)
    }

    /// Free the slot a handle refers to and return its payload.  Succeeds
    /// exactly when the handle is live and owned.  Afterwards the handle is
    /// dead, and — like every handle that dies — it stays dead under all
    /// later operations of this table.
    pub fn delete(&mut self, h: ResourceHandle) -> (r: Result<T, StaleError>)
        requires
            old(self).wf(),
        ensures
            final(self).wf(),
            r is Ok <==> old(self).spec_live(h) && h.owned,
            r matches Ok(p) ==> p == old(self).spec_payload(h),
            r is Ok ==> !final(self).spec_live(h),
            r is Err ==> *final(self) == *old(self),
            forall|h2: ResourceHandle|
                #[trigger] final(self).spec_issued(h2) <==> old(self).spec_issued(h2),
            forall|h2: ResourceHandle|
                old(self).spec_live(h2) && h2.index != h.index ==> #[trigger] final(self).spec_live(h2) && final(self).spec_payload(h2) == old(self).spec_payload(h2),
            forall|h2: ResourceHandle|
                old(self).spec_issued(h2) && !old(self).spec_live(h2) ==> !final(self).spec_live(
                    h2,
                ),
            r is Ok ==> forall|h2: ResourceHandle| #[trigger] final(self).spec_live(h2) ==> h2.index != h.index,
    {
        if !h.owned {
            return Err(StaleError);
        }
        if (h.index as usize) < self.slots.len() {
            let live = match &self.slots[h.index as usize] {
                Slot::Live { generation, .. } => *generation == h.generation,
                Slot::Free { .. } => false,
            };
            if live {
                let generation = h.generation;
                let mut slot = Slot::Free { generation };
                self.slots.set_and_swap(h.index as usize, &mut slot);
                match slot {
                    Slot::Live { payload, .. } => {
                        return Ok(payload);
                    },
                    Slot::Free { .. } => {
                        proof {
                            assert(false);
                        }
                        return Err(StaleError);
                    },
                }
            }
        }
        Err(StaleError)
    }

    /// Whether the handle currently refers to a live resource.
    pub fn is_live(&self, h: ResourceHandle) -> (r: bool)
        ensures
            r == self.spec_live(h),
    {
        if (h.index as usize) < self.slots.len() {
            match &self.slots[h.index as usize] {
                Slot::Live { generation, .. } => *generation == h.generation,
                Slot::Free { .. } => false,
            }
        } else {
            false
        }
    }
}

/// Once a handle issued by a table has died, no single `push`, `replace`,
/// or `delete` call can make it live again: each of those operations
/// ensures that a dead issued handle is still dead and still issued, so by
/// induction over any call sequence staleness is permanent, and a second
/// `delete` of the same handle always returns `StaleError`.
pub proof fn lemma_dead_handles_stay_dead<T>(
    before: ResourceTable<T>,
    after: ResourceTable<T>,
    h: ResourceHandle,
)
    requires
        before.spec_issued(h),
        !before.spec_live(h),
        forall|h2: ResourceHandle|
            before.spec_issued(h2) && !before.spec_live(h2) ==> !after.spec_live(h2),
    ensures
        !after.spec_live(h),
{
}

} // verus!
