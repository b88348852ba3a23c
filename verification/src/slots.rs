//! The slot table and slot allocator. A slot is a small integer handle,
//! unique among currently-registered regions; the table maps each live
//! slot to the guest address and owned host mapping registered under it,
//! and the allocator reclaims the slots of removed regions (the gap list)
//! before minting fresh ones, so numbering stays dense.
//!
//! Slot numbering starts at `base`, the count of statically present guest
//! regions, which occupy the lowest slot numbers on a freshly created VM.

use std::collections::BTreeMap;

use vstd::prelude::*;

use crate::mapping::Mapping;

verus! {

broadcast use vstd::std_specs::btree::group_btree_axioms, vstd::laws_cmp::group_laws_cmp;

/// A guest memory region registered under a slot: the guest address it
/// was mapped at and the owned host mapping backing it.
#[derive(Clone, Copy, Debug, PartialEq, Eq, Structural)]
pub struct MemoryRegion {
    /// Guest physical address of the first byte.
    pub guest_addr: u64,
    /// The owned host mapping backing the region.
    pub mapping: Mapping,
}

/// The slot table together with its allocator state.
pub struct SlotTable {
    base: u32,
    regions: BTreeMap<u32, MemoryRegion>,
    gaps: Vec<u32>,
}

impl SlotTable {
    /// The first slot number this table may hand out; lower numbers
    /// belong to the statically present regions.
    pub closed spec fn base(self) -> u32 {
        self.base
    }

    /// The mapping from live slot to registered region.
    pub closed spec fn regions(self) -> Map<u32, MemoryRegion> {
        self.regions@
    }

    /// The reclaimed slot numbers, in strictly decreasing order, so the
    /// least reclaimed slot sits at the end.
    pub closed spec fn gaps(self) -> Seq<u32> {
        self.gaps@
    }

    /// One past the largest slot number ever handed out: every live or
    /// reclaimed slot lies in `[base, bound)`, and every number at or
    /// above `bound` has never been handed out.
    pub open spec fn bound(self) -> int {
        self.base() + self.regions().len() + self.gaps().len()
    }

    /// Allocator well-formedness: live slots and gaps partition an
    /// initial window of slot numbers. Every live slot and every gap lies
    /// in `[base, bound)`, no gap is live, and the gap list is strictly
    /// decreasing (so free of duplicates, with its minimum last).
    pub open spec fn wf(self) -> bool {
        &&& self.regions().dom().finite()
        &&& self.bound() <= u32::MAX + 1
        &&& forall|s: u32|
            #[trigger] self.regions().dom().contains(s) ==> self.base() <= s && (s as int)
                < self.bound()
        &&& forall|i: int|
            0 <= i < self.gaps().len() ==> self.base() <= #[trigger] self.gaps()[i]
                && self.gaps()[i] < self.bound()
        &&& forall|i: int|
            0 <= i < self.gaps().len() ==> !self.regions().dom().contains(#[trigger] self.gaps()[i])
        &&& forall|i: int, j: int|
            0 <= i < j < self.gaps().len() ==> #[trigger] self.gaps()[i] > #[trigger] self.gaps()[j]
    }

    /// The slot the allocator will hand out next: the least reclaimed
    /// slot if any slot has been reclaimed, else the next fresh number.
    pub open spec fn next_slot(self) -> int {
        if self.gaps().len() > 0 {
            self.gaps().last() as int
        } else {
            self.base() + self.regions().len()
        }
    }

    /// The state an allocation leaves behind while its driver call is in
    /// flight: `slot` is accounted to the window but is neither live nor
    /// reclaimed, and it lies below every remaining gap.
    pub open spec fn wf_pending(self, slot: u32) -> bool {
        &&& self.regions().dom().finite()
        &&& self.bound() + 1 <= u32::MAX + 1
        &&& self.base() <= slot && (slot as int) < self.bound() + 1
        &&& !self.regions().dom().contains(slot)
        &&& forall|s: u32|
            #[trigger] self.regions().dom().contains(s) ==> self.base() <= s && (s as int)
                < self.bound() + 1
        &&& forall|i: int|
            0 <= i < self.gaps().len() ==> self.base() <= #[trigger] self.gaps()[i]
                && self.gaps()[i] < self.bound() + 1
        &&& forall|i: int|
            0 <= i < self.gaps().len() ==> #[trigger] self.gaps()[i] != slot
        &&& forall|i: int|
            0 <= i < self.gaps().len() ==> !self.regions().dom().contains(#[trigger] self.gaps()[i])
        &&& forall|i: int, j: int|
            0 <= i < j < self.gaps().len() ==> #[trigger] self.gaps()[i] > #[trigger] self.gaps()[j]
        &&& forall|i: int| 0 <= i < self.gaps().len() ==> #[trigger] self.gaps()[i] > slot
    }

    /// Gap reuse is preferred over growth: the slot the allocator hands
    /// out next is no greater than any reclaimed slot, and strictly
    /// below `bound`, the least number never yet handed out, whenever a
    /// reclaimed slot exists at all.
    pub proof fn lemma_gap_reuse_preferred(self)
        requires
            self.wf(),
        ensures
            forall|i: int| 0 <= i < self.gaps().len() ==> self.next_slot() <= #[trigger] self.gaps()[i],
            self.next_slot() <= self.bound(),
            self.gaps().len() > 0 ==> self.next_slot() < self.bound(),
    {
        if self.gaps().len() > 0 {
            assert forall|i: int| 0 <= i < self.gaps().len() implies self.next_slot()
                <= #[trigger] self.gaps()[i] by {
                if i < self.gaps().len() - 1 {
                    assert(self.gaps()[i] > self.gaps()[self.gaps().len() - 1]);
                }
            }
        }
    }

    /// A slot just reclaimed is reused before any fresh number is
    /// minted: whatever number the allocator hands out next is no
    /// greater than any slot in the gap list, stated here over the
    /// multiset that `remove` says the reclaimed slot was added to.
    pub proof fn lemma_reclaimed_before_fresh(self, s: u32)
        requires
            self.wf(),
            self.gaps().to_multiset().contains(s),
        ensures
            self.next_slot() <= s,
    {
        broadcast use vstd::seq_lib::group_to_multiset_ensures;

        assert(self.gaps().contains(s));
        let i = choose|i: int| 0 <= i < self.gaps().len() && self.gaps()[i] == s;
        self.lemma_gap_reuse_preferred();
        assert(self.next_slot() <= self.gaps()[i]);
    }

    /// An empty table whose numbering starts right after the `base`
    /// statically present regions.
    pub fn new(base: u32) -> (r: SlotTable)
        ensures
            r.wf(),
            r.base() == base,
            r.regions() == Map::<u32, MemoryRegion>::empty(),
            r.gaps() == Seq::<u32>::empty(),
    {
        SlotTable { base, regions: BTreeMap::new(), gaps: Vec::new() }
    }

    /// How many regions are currently registered.
    pub fn len(&self) -> (r: usize)
        requires
            self.wf(),
        ensures
            r == self.regions().len(),
    {
        self.regions.len()
    }

    /// The region registered under `slot`, if the slot is live.
    pub fn get(&self, slot: u32) -> (r: Option<MemoryRegion>)
        ensures
            match r {
                Some(region) => self.regions().dom().contains(slot) && region
                    == self.regions()[slot],
                None => !self.regions().dom().contains(slot),
            },
    {
        match self.regions.get(&slot) {
            Some(region) => Some(*region),
            None => None,
        }
    }

    /// Whether `slot` is live.
    pub fn contains(&self, slot: u32) -> (r: bool)
        ensures
            r == self.regions().dom().contains(slot),
    {
        self.regions.contains_key(&slot)
    }

    /// Whether the allocator can still hand out a slot number without
    /// leaving the range of slot identifiers.
    pub fn can_allocate(&self) -> (r: bool)
        requires
            self.wf(),
        ensures
            r == (self.bound() <= u32::MAX),
    {
        let occupied = self.regions.len() as u64 + self.gaps.len() as u64;
        occupied <= (u32::MAX as u64) - (self.base as u64)
    }

    /// Takes the slot the allocator hands out next: the least reclaimed
    /// slot is popped from the gap list if one exists, else the next
    /// fresh number is minted. The slot is not yet live; `commit` or
    /// `restore` must follow.
    pub fn take_slot(&mut self) -> (slot: u32)
        requires
            old(self).wf(),
            old(self).bound() <= u32::MAX,
        ensures
            slot == old(self).next_slot(),
            final(self).wf_pending(slot),
            final(self).base() == old(self).base(),
            final(self).regions() == old(self).regions(),
            final(self).gaps() == if old(self).gaps().len() > 0 {
                old(self).gaps().drop_last()
            } else {
                old(self).gaps()
            },
    {
        match self.gaps.pop() {
            Some(gap) => gap,
            None => {
                let fresh = self.base + self.regions.len() as u32;
                assert(fresh as int == self.bound());
                fresh
            },
        }
    }

    /// Returns a taken slot to the allocator after the driver refused the
    /// mapping, undoing the speculative allocation.
    pub fn restore(&mut self, slot: u32)
        requires
            old(self).wf_pending(slot),
        ensures
            final(self).wf(),
            final(self).base() == old(self).base(),
            final(self).regions() == old(self).regions(),
            final(self).gaps() == old(self).gaps().push(slot),
            final(self).next_slot() == slot as int,
    {
        self.gaps.push(slot);
    }

    /// Makes a taken slot live, registering the region under it.
    pub fn commit(&mut self, slot: u32, region: MemoryRegion)
        requires
            old(self).wf_pending(slot),
        ensures
            final(self).wf(),
            final(self).base() == old(self).base(),
            final(self).regions() == old(self).regions().insert(slot, region),
            final(self).gaps() == old(self).gaps(),
    {
        self.regions.insert(slot, region);
    }

    /// Copies the table for a cloned VM handle.
    pub fn duplicate(&self) -> (r: SlotTable)
        ensures
            r.base() == self.base(),
            r.regions() == self.regions(),
            r.gaps() == self.gaps(),
    {
        let regions = self.regions.clone();
        let mut gaps: Vec<u32> = Vec::new();
        let mut i: usize = 0;
        while i < self.gaps.len()
            invariant
                i <= self.gaps@.len(),
                gaps@ == self.gaps@.take(i as int),
            decreases self.gaps@.len() - i,
        {
            gaps.push(self.gaps[i]);
            proof {
                assert(gaps@ =~= self.gaps@.take(i + 1 as int));
            }
            i = i + 1;
        }
        proof {
            assert(gaps@ =~= self.gaps@);
        }
        SlotTable { base: self.base, regions, gaps }
    }

    /// Unregisters a live slot, reclaiming its number for reuse and
    /// returning the region that was registered under it.
    pub fn remove(&mut self, slot: u32) -> (region: MemoryRegion)
        requires
            old(self).wf(),
            old(self).regions().dom().contains(slot),
        ensures
            final(self).wf(),
            final(self).base() == old(self).base(),
            region == old(self).regions()[slot],
            final(self).regions() == old(self).regions().remove(slot),
            final(self).gaps().to_multiset() == old(self).gaps().to_multiset().insert(slot),
    {
        let region = match self.regions.get(&slot) {
            Some(region) => *region,
            None => unreached(),
        };
        self.regions.remove(&slot);
        // Insert the reclaimed number at its place in the strictly
        // decreasing gap list.
        let mut i: usize = 0;
        while i < self.gaps.len() && self.gaps[i] > slot
            invariant
                i <= self.gaps@.len(),
                forall|k: int| 0 <= k < i ==> #[trigger] self.gaps@[k] > slot,
                self.base == old(self).base,
                self.gaps@ == old(self).gaps@,
                self.regions@ == old(self).regions@.remove(slot),
            decreases self.gaps@.len() - i,
        {
            i = i + 1;
        }
        let ghost old_gaps = self.gaps@;
        self.gaps.insert(i, slot);
        proof {
            assert(self.gaps@ == old_gaps.insert(i as int, slot));
            old_gaps.insert_ensures(i as int, slot);
            if i < old_gaps.len() {
                assert(old_gaps[i as int] <= slot);
                assert(old_gaps[i as int] != slot);
            }
            assert forall|x: int, y: int|
                0 <= x < y < self.gaps@.len() implies #[trigger] self.gaps@[x]
                > #[trigger] self.gaps@[y] by {
                let ox: int = if x < i as int { x } else { x - 1 };
                let oy: int = if y < i as int { y } else { y - 1 };
                if x < i as int {
                    assert(self.gaps@[x] == old_gaps[x]);
                }
                if y > i as int {
                    assert(self.gaps@[y] == old_gaps[y - 1]);
                }
                if x == i as int {
                    assert(self.gaps@[x] == slot);
                }
                if y == i as int {
                    assert(self.gaps@[y] == slot);
                }
                if x < i as int && y < i as int {
                    assert(old_gaps[x] > old_gaps[y]);
                }
                if x > i as int && y > i as int {
                    assert(old_gaps[x - 1] > old_gaps[y - 1]);
                }
                if x < i as int && y > i as int {
                    assert(old_gaps[x] > old_gaps[y - 1]);
                }
            }
            vstd::seq_lib::to_multiset_insert(old_gaps, i as int, slot);
        }
        region
    }
}

} // verus!
