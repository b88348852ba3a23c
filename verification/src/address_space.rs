//! The static guest memory layout: the ordered, non-overlapping set of
//! guest physical ranges backed by host allocations that exists from VM
//! construction onwards. It is immutable once built and answers the
//! overlap pre-check that `add_memory_region` makes before consulting the
//! driver.

use vstd::prelude::*;

use crate::mapping::Mapping;
use crate::ranges_overlap;
use crate::Error;

verus! {

/// Whether a layout of `(guest address, backing mapping)` pairs is
/// acceptable: every range non-empty, every end within the address
/// width, no two ranges overlapping.
pub open spec fn layout_valid(layout: Seq<(u64, Mapping)>) -> bool {
    &&& forall|i: int|
        0 <= i < layout.len() ==> {
            &&& (#[trigger] layout[i]).1.size > 0
            &&& layout[i].0 + layout[i].1.size <= u64::MAX
        }
    &&& forall|i: int, j: int|
        0 <= i < layout.len() && 0 <= j < layout.len() && i != j ==> !ranges_overlap(
            (#[trigger] layout[i]).0 as int,
            layout[i].1.size as int,
            (#[trigger] layout[j]).0 as int,
            layout[j].1.size as int,
        )
}

} // verus!

verus! {

/// One statically present guest memory range: `size` bytes of guest
/// physical memory starting at `guest_addr`, backed by host memory at
/// `host_addr`.
#[derive(Clone, Copy, Debug, PartialEq, Eq, Structural)]
pub struct StaticRegion {
    /// Guest physical address of the first byte.
    pub guest_addr: u64,
    /// Length in bytes.
    pub size: u64,
    /// Host virtual address of the first byte of the backing allocation.
    pub host_addr: u64,
}

/// Every range of the sequence is non-empty and its end fits in the
/// address width.
pub open spec fn regions_bounded(s: Seq<StaticRegion>) -> bool {
    forall|i: int|
        0 <= i < s.len() ==> {
            &&& (#[trigger] s[i]).size > 0
            &&& s[i].guest_addr + s[i].size <= u64::MAX
        }
}

/// The static guest memory layout.
pub struct GuestAddressSpace {
    regions: Vec<StaticRegion>,
}

impl GuestAddressSpace {
    /// The regions of the layout, in the order given at construction.
    pub closed spec fn regions(self) -> Seq<StaticRegion> {
        self.regions@
    }

    /// A well-formed layout: every range is non-empty, its end fits in the
    /// address width, and no two ranges overlap.
    pub open spec fn wf(self) -> bool {
        &&& regions_bounded(self.regions())
        &&& forall|i: int, j: int|
            0 <= i < self.regions().len() && 0 <= j < self.regions().len() && i != j
                ==> !ranges_overlap(
                (#[trigger] self.regions()[i]).guest_addr as int,
                self.regions()[i].size as int,
                (#[trigger] self.regions()[j]).guest_addr as int,
                self.regions()[j].size as int,
            )
    }

    /// Whether the candidate half-open range `[start, end)` intersects
    /// some region of the layout.
    pub open spec fn spec_overlaps(self, start: int, end: int) -> bool {
        exists|i: int|
            0 <= i < self.regions().len() && ranges_overlap(
                (#[trigger] self.regions()[i]).guest_addr as int,
                self.regions()[i].size as int,
                start,
                end - start,
            )
    }

    /// Builds the layout from `(guest address, backing mapping)` pairs,
    /// refusing an empty range, a range whose end does not fit in the
    /// address width, and a pair of overlapping ranges.
    pub fn new(layout: &Vec<(u64, Mapping)>) -> (r: core::result::Result<GuestAddressSpace, Error>)
        ensures
            r is Ok <==> layout_valid(layout@),
            match r {
                Ok(space) => {
                    &&& space.wf()
                    &&& space.regions().len() == layout@.len()
                    &&& forall|i: int|
                        0 <= i < layout@.len() ==> #[trigger] space.regions()[i] == (StaticRegion {
                            guest_addr: layout@[i].0,
                            size: layout@[i].1.size,
                            host_addr: layout@[i].1.host_addr,
                        })
                },
                Err(Error::AddressOverflow) => exists|i: int|
                    0 <= i < layout@.len() && (#[trigger] layout@[i]).1.size > 0 && layout@[i].0
                        + layout@[i].1.size > u64::MAX,
                Err(Error::NoSpace) => (exists|i: int|
                    0 <= i < layout@.len() && (#[trigger] layout@[i]).1.size == 0) || (exists|
                    i: int,
                    j: int,
                |
                    0 <= i < layout@.len() && 0 <= j < layout@.len() && i != j && ranges_overlap(
                        (#[trigger] layout@[i]).0 as int,
                        layout@[i].1.size as int,
                        (#[trigger] layout@[j]).0 as int,
                        layout@[j].1.size as int,
                    )),
                Err(_) => false,
            },
    {
        let mut regions: Vec<StaticRegion> = Vec::new();
        let mut i: usize = 0;
        while i < layout.len()
            invariant
                i <= layout@.len(),
                regions@.len() == i,
                regions_bounded(regions@),
                forall|k: int|
                    0 <= k < i ==> #[trigger] regions@[k] == (StaticRegion {
                        guest_addr: layout@[k].0,
                        size: layout@[k].1.size,
                        host_addr: layout@[k].1.host_addr,
                    }),
            decreases layout@.len() - i,
        {
            let (guest_addr, mapping) = layout[i];
            if mapping.size == 0 {
                proof {
                    assert(layout@[i as int].1.size == 0);
                }
                return Err(Error::NoSpace);
            }
            if guest_addr > u64::MAX - mapping.size {
                proof {
                    assert(layout@[i as int].1.size > 0);
                    assert(layout@[i as int].0 + layout@[i as int].1.size > u64::MAX);
                }
                return Err(Error::AddressOverflow);
            }
            regions.push(
                StaticRegion { guest_addr, size: mapping.size, host_addr: mapping.host_addr },
            );
            i = i + 1;
        }
        let space = GuestAddressSpace { regions };
        let mut a: usize = 0;
        while a < space.regions.len()
            invariant
                a <= space.regions@.len(),
                regions_bounded(space.regions@),
                space.regions@.len() == layout@.len(),
                forall|k: int|
                    0 <= k < layout@.len() ==> #[trigger] space.regions@[k] == (StaticRegion {
                        guest_addr: layout@[k].0,
                        size: layout@[k].1.size,
                        host_addr: layout@[k].1.host_addr,
                    }),

                forall|i: int, j: int|
                    0 <= i < a && 0 <= j < space.regions@.len() && i != j ==> !ranges_overlap(
                        (#[trigger] space.regions@[i]).guest_addr as int,
                        space.regions@[i].size as int,
                        (#[trigger] space.regions@[j]).guest_addr as int,
                        space.regions@[j].size as int,
                    ),
            decreases space.regions@.len() - a,
        {
            let mut b: usize = a + 1;
            while b < space.regions.len()
                invariant
                    a < b,
                    a < space.regions@.len(),
                    b <= space.regions@.len(),
                    regions_bounded(space.regions@),
                space.regions@.len() == layout@.len(),
                forall|k: int|
                    0 <= k < layout@.len() ==> #[trigger] space.regions@[k] == (StaticRegion {
                        guest_addr: layout@[k].0,
                        size: layout@[k].1.size,
                        host_addr: layout@[k].1.host_addr,
                    }),

                    forall|j: int|
                        a < j < b ==> !ranges_overlap(
                            space.regions@[a as int].guest_addr as int,
                            space.regions@[a as int].size as int,
                            (#[trigger] space.regions@[j]).guest_addr as int,
                            space.regions@[j].size as int,
                        ),
                decreases space.regions@.len() - b,
            {
                let ra = space.regions[a];
                let rb = space.regions[b];
                if ra.guest_addr < rb.guest_addr.wrapping_add(rb.size)
                    && rb.guest_addr < ra.guest_addr.wrapping_add(ra.size) && ra.size > 0
                    && rb.size > 0 {
                    proof {
                        assert(ranges_overlap(
                            layout@[a as int].0 as int,
                            layout@[a as int].1.size as int,
                            layout@[b as int].0 as int,
                            layout@[b as int].1.size as int,
                        ));
                    }
                    return Err(Error::NoSpace);
                }
                b = b + 1;
            }
            a = a + 1;
        }
        assert forall|i: int, j: int|
            0 <= i < space.regions@.len() && 0 <= j < space.regions@.len() && i != j
                implies !ranges_overlap(
            (#[trigger] space.regions@[i]).guest_addr as int,
            space.regions@[i].size as int,
            (#[trigger] space.regions@[j]).guest_addr as int,
            space.regions@[j].size as int,
        ) by {
            assert(ranges_overlap(
                space.regions@[i].guest_addr as int,
                space.regions@[i].size as int,
                space.regions@[j].guest_addr as int,
                space.regions@[j].size as int,
            ) == ranges_overlap(
                space.regions@[j].guest_addr as int,
                space.regions@[j].size as int,
                space.regions@[i].guest_addr as int,
                space.regions@[i].size as int,
            ));
        }
        proof {
            assert(layout_valid(layout@)) by {
                assert forall|i: int| 0 <= i < layout@.len() implies {
                    &&& (#[trigger] layout@[i]).1.size > 0
                    &&& layout@[i].0 + layout@[i].1.size <= u64::MAX
                } by {
                    assert(space.regions@[i].size == layout@[i].1.size);
                }
                assert forall|i: int, j: int|
                    0 <= i < layout@.len() && 0 <= j < layout@.len() && i != j
                    implies !ranges_overlap(
                    (#[trigger] layout@[i]).0 as int,
                    layout@[i].1.size as int,
                    (#[trigger] layout@[j]).0 as int,
                    layout@[j].1.size as int,
                ) by {
                    assert(space.regions@[i] == (StaticRegion {
                        guest_addr: layout@[i].0,
                        size: layout@[i].1.size,
                        host_addr: layout@[i].1.host_addr,
                    }));
                    assert(space.regions@[j] == (StaticRegion {
                        guest_addr: layout@[j].0,
                        size: layout@[j].1.size,
                        host_addr: layout@[j].1.host_addr,
                    }));
                }
            }
        }
        Ok(space)
    }

    /// Copies the layout for a cloned VM handle; the layout is immutable
    /// after construction, so the copy describes the same memory.
    pub fn duplicate(&self) -> (r: GuestAddressSpace)
        ensures
            r.regions() == self.regions(),
    {
        let mut regions: Vec<StaticRegion> = Vec::new();
        let mut i: usize = 0;
        while i < self.regions.len()
            invariant
                i <= self.regions().len(),
                regions@ == self.regions().take(i as int),
            decreases self.regions().len() - i,
        {
            regions.push(self.regions[i]);
            proof {
                assert(regions@ =~= self.regions().take(i + 1 as int));
            }
            i = i + 1;
        }
        proof {
            assert(regions@ =~= self.regions());
        }
        GuestAddressSpace { regions }
    }

    /// How many regions the static layout holds.
    pub fn num_regions(&self) -> (r: usize)
        ensures
            r == self.regions().len(),
    {
        self.regions.len()
    }

    /// The region at the given position of the layout.
    pub fn region_at(&self, i: usize) -> (r: StaticRegion)
        requires
            i < self.regions().len(),
        ensures
            r == self.regions()[i as int],
    {
        self.regions[i]
    }

    /// Whether the candidate half-open range `[start, end)` intersects a
    /// region of the static layout.
    pub fn range_overlap(&self, start: u64, end: u64) -> (r: bool)
        requires
            self.wf(),
        ensures
            r == self.spec_overlaps(start as int, end as int),
    {
        let mut i: usize = 0;
        while i < self.regions.len()
            invariant
                self.wf(),
                i <= self.regions().len(),
                forall|k: int|
                    0 <= k < i ==> !ranges_overlap(
                        (#[trigger] self.regions()[k]).guest_addr as int,
                        self.regions()[k].size as int,
                        start as int,
                        end - start,
                    ),
            decreases self.regions().len() - i,
        {
            let region = self.regions[i];
            if start < end && region.guest_addr < end && start < region.guest_addr.wrapping_add(
                region.size,
            ) {
                return true;
            }
            i = i + 1;
        }
        false
    }
}

} // verus!
