//! The virtual machine handle: the capability facade combining the static
//! guest layout, the slot table and allocator, the io-event registry and
//! the driver connection. Every structural mutation is mirrored through
//! the driver before it is committed in-process, and a driver refusal
//! rolls back any speculative change, so the slot table is at all times a
//! faithful mirror of what the driver has mapped.

use vstd::prelude::*;
use vstd::string::StringSliceAdditionalSpecFns;

use crate::address_space::GuestAddressSpace;
use crate::address_space::StaticRegion;
use crate::driver::Driver;
use crate::driver::DriverConfig;
use crate::driver::DriverMapping;
use crate::ioevents::Event;
use crate::ioevents::IoEventRegistry;
use crate::mapping::Mapping;
use crate::ranges_overlap;
use crate::slots::MemoryRegion;
use crate::slots::SlotTable;
use crate::driver::DriverVariant;
use crate::driver::ERR_TOO_BIG;
use crate::mapping::MapError;
use crate::Datamatch;
use crate::DeviceKind;
use crate::Error;
use crate::GuestAddress;
use crate::IoEventAddress;
use crate::MemSlot;
use crate::VmCap;

verus! {

/// How many bytes of log file path the backend's fixed-size registration
/// record can carry.
pub const LOG_FILE_PATH_CAPACITY: usize = 256;

/// The error code a plain platform mapping reports for a range outside
/// itself.
pub const ERR_BAD_ADDRESS: u32 = 14;

/// The error code the monitor uses for a mapping-layer failure it has no
/// better name for.
pub const ERR_IO: u32 = 5;

/// Whether a driver-side entry is the mapping of a statically present
/// region.
pub open spec fn entry_matches_static(entry: DriverMapping, region: StaticRegion) -> bool {
    &&& entry.guest_addr == region.guest_addr
    &&& entry.size == region.size
    &&& entry.host_addr == region.host_addr
}

/// Whether a driver-side entry is the mapping of a slot-table region.
pub open spec fn entry_matches_region(entry: DriverMapping, region: MemoryRegion) -> bool {
    &&& entry.guest_addr == region.guest_addr
    &&& entry.size == region.mapping.size
    &&& entry.host_addr == region.mapping.host_addr
}

/// Whether some driver-side entry is the mapping of this statically
/// present region.
pub open spec fn driver_has_static(d: Seq<DriverMapping>, region: StaticRegion) -> bool {
    exists|i: int| 0 <= i < d.len() && entry_matches_static(#[trigger] d[i], region)
}

/// Whether some driver-side entry is the mapping of this slot-table
/// region.
pub open spec fn driver_has_region(d: Seq<DriverMapping>, region: MemoryRegion) -> bool {
    exists|i: int| 0 <= i < d.len() && entry_matches_region(#[trigger] d[i], region)
}

/// A handle to one virtual machine.
pub struct HaxmVm {
    driver: Driver,
    guest_mem: GuestAddressSpace,
    slots: SlotTable,
    ioevents: IoEventRegistry,
}

impl HaxmVm {
    /// The driver connection.
    pub closed spec fn driver(self) -> Driver {
        self.driver
    }

    /// The static guest memory layout.
    pub closed spec fn guest_mem(self) -> GuestAddressSpace {
        self.guest_mem
    }

    /// The slot table and allocator.
    pub closed spec fn slots(self) -> SlotTable {
        self.slots
    }

    /// The io-event registry.
    pub closed spec fn ioevents(self) -> IoEventRegistry {
        self.ioevents
    }

    /// Every statically present region is mapped by the driver.
    pub open spec fn statics_mapped(self) -> bool {
        forall|j: int|
            0 <= j < self.guest_mem().regions().len() ==> driver_has_static(
                self.driver().mapped(),
                #[trigger] self.guest_mem().regions()[j],
            )
    }

    /// Every live slot's region is mapped by the driver.
    pub open spec fn regions_mapped(self) -> bool {
        forall|s: u32|
            #[trigger] self.slots().regions().dom().contains(s) ==> driver_has_region(
                self.driver().mapped(),
                self.slots().regions()[s],
            )
    }

    /// Whether a driver-side entry is the mapping of some statically
    /// present region.
    pub open spec fn entry_is_static(self, entry: DriverMapping) -> bool {
        exists|j: int|
            0 <= j < self.guest_mem().regions().len() && entry_matches_static(
                entry,
                #[trigger] self.guest_mem().regions()[j],
            )
    }

    /// Whether a driver-side entry is the mapping of some live slot's
    /// region.
    pub open spec fn entry_is_live(self, entry: DriverMapping) -> bool {
        exists|s: u32|
            #[trigger] self.slots().regions().dom().contains(s) && entry_matches_region(
                entry,
                self.slots().regions()[s],
            )
    }

    /// Everything the driver has mapped is either a statically present
    /// region or a live slot's region: the driver holds nothing this
    /// handle does not know of.
    pub open spec fn driver_covered(self) -> bool {
        forall|i: int|
            0 <= i < self.driver().mapped().len() ==> self.entry_is_static(
                #[trigger] self.driver().mapped()[i],
            ) || self.entry_is_live(self.driver().mapped()[i])
    }

    /// Every live region is non-empty, lies within the address width,
    /// intersects no statically present range, and intersects no other
    /// live region.
    pub open spec fn regions_disjoint(self) -> bool {
        &&& forall|s: u32|
            #[trigger] self.slots().regions().dom().contains(s) ==> {
                &&& self.slots().regions()[s].mapping.size > 0
                &&& self.slots().regions()[s].guest_addr + self.slots().regions()[s].mapping.size
                    <= u64::MAX
                &&& !self.guest_mem().spec_overlaps(
                    self.slots().regions()[s].guest_addr as int,
                    self.slots().regions()[s].guest_addr + self.slots().regions()[s].mapping.size,
                )
            }
        &&& forall|s1: u32, s2: u32|
            #[trigger] self.slots().regions().dom().contains(s1)
                && #[trigger] self.slots().regions().dom().contains(s2) && s1 != s2
                ==> !ranges_overlap(
                self.slots().regions()[s1].guest_addr as int,
                self.slots().regions()[s1].mapping.size as int,
                self.slots().regions()[s2].guest_addr as int,
                self.slots().regions()[s2].mapping.size as int,
            )
    }

    /// The handle's invariant: each component is well formed, slot
    /// numbering starts after the static regions, and the slot table
    /// mirrors the driver's mapped set exactly.
    pub open spec fn wf(self) -> bool {
        &&& self.driver().wf()
        &&& self.guest_mem().wf()
        &&& self.slots().wf()
        &&& self.ioevents().wf()
        &&& self.guest_mem().regions().len() <= u32::MAX
        &&& self.slots().base() == self.guest_mem().regions().len()
        &&& self.statics_mapped()
        &&& self.regions_mapped()
        &&& self.driver_covered()
        &&& self.regions_disjoint()
    }

    /// Whether `[addr, addr + size)` intersects some live slot's region.
    pub open spec fn live_overlaps(self, addr: int, size: int) -> bool {
        exists|s: u32|
            #[trigger] self.slots().regions().dom().contains(s) && ranges_overlap(
                self.slots().regions()[s].guest_addr as int,
                self.slots().regions()[s].mapping.size as int,
                addr,
                size,
            )
    }

    /// Whether `add_memory_region` consults the driver for this
    /// candidate: the in-process pre-checks (address width, static
    /// layout) pass, so a refusal can only come from the driver itself,
    /// after a slot has been speculatively taken.
    pub open spec fn reaches_driver(self, addr: int, size: int) -> bool {
        addr + size <= u64::MAX && !self.guest_mem().spec_overlaps(addr, addr + size)
    }

    /// What `add_memory_region` answers for a candidate region, decided
    /// entirely by the handle's current state: the end address must fit
    /// the address width, and the candidate must be non-empty and
    /// intersect neither the static layout nor a live region.
    pub open spec fn add_outcome(self, addr: int, size: int) -> core::result::Result<(), Error> {
        if addr + size > u64::MAX {
            Err(Error::AddressOverflow)
        } else if self.guest_mem().spec_overlaps(addr, addr + size) {
            Err(Error::NoSpace)
        } else if size == 0 || self.live_overlaps(addr, size) {
            Err(Error::NoSpace)
        } else {
            Ok(())
        }
    }

    /// The slot accounting law: for every sequence of additions and
    /// removals the handle performs, the live slot set is exactly the
    /// slot table's key set, no reclaimed slot is live, the allocator
    /// never hands out a slot that is currently live, and no two live
    /// slots share a guest address range.
    pub proof fn lemma_live_slot_accounting(self)
        requires
            self.wf(),
        ensures
            forall|i: int|
                0 <= i < self.slots().gaps().len() ==> !self.slots().regions().dom().contains(
                    #[trigger] self.slots().gaps()[i],
                ),
            forall|s: u32|
                #[trigger] self.slots().regions().dom().contains(s) ==> (s as int)
                    != self.slots().next_slot(),
            forall|s1: u32, s2: u32|
                #[trigger] self.slots().regions().dom().contains(s1)
                    && #[trigger] self.slots().regions().dom().contains(s2) && s1 != s2
                    ==> !ranges_overlap(
                    self.slots().regions()[s1].guest_addr as int,
                    self.slots().regions()[s1].mapping.size as int,
                    self.slots().regions()[s2].guest_addr as int,
                    self.slots().regions()[s2].mapping.size as int,
                ),
    {
        assert forall|s: u32| #[trigger] self.slots().regions().dom().contains(s) implies (
        s as int) != self.slots().next_slot() by {
            if self.slots().gaps().len() > 0 {
                let last = self.slots().gaps().len() - 1;
                assert(!self.slots().regions().dom().contains(self.slots().gaps()[last]));
            }
        }
    }

    /// The round-trip law: a region just added under `slot` is exactly
    /// what a removal of `slot` hands back. `add_memory_region` commits
    /// the caller's mapping unchanged into the table, so the mapping
    /// that `remove_memory_region` returns for that slot has the same
    /// host pointer and the same size as the one added.
    pub proof fn lemma_add_remove_round_trip(
        pre: HaxmVm,
        mid: HaxmVm,
        slot: u32,
        guest_addr: u64,
        mem: Mapping,
    )
        requires
            mid.slots().regions() == pre.slots().regions().insert(
                slot,
                MemoryRegion { guest_addr, mapping: mem },
            ),
        ensures
            mid.slots().regions().dom().contains(slot),
            mid.slots().regions()[slot].mapping == mem,
            mid.slots().regions()[slot].mapping.host_addr == mem.host_addr,
            mid.slots().regions()[slot].mapping.size == mem.size,
    {
    }

    /// Under the mirror invariant, a candidate range collides with the
    /// driver's mapped set exactly when it collides with the static
    /// layout or with a live region.
    pub proof fn lemma_driver_overlap(self, addr: int, size: int)
        requires
            self.wf(),
            size > 0,
        ensures
            self.driver().spec_overlaps(addr, size) <==> (self.guest_mem().spec_overlaps(
                addr,
                addr + size,
            ) || self.live_overlaps(addr, size)),
    {
        let d = self.driver().mapped();
        if self.driver().spec_overlaps(addr, size) {
            let i = choose|i: int|
                0 <= i < d.len() && ranges_overlap(
                    (#[trigger] d[i]).guest_addr as int,
                    d[i].size as int,
                    addr,
                    size,
                );
            assert(0 <= i < d.len());
            assert(self.entry_is_static(d[i]) || self.entry_is_live(d[i]));
            if self.entry_is_static(d[i]) {
                let j = choose|j: int|
                    0 <= j < self.guest_mem().regions().len() && entry_matches_static(
                        d[i],
                        #[trigger] self.guest_mem().regions()[j],
                    );
                assert(ranges_overlap(
                    self.guest_mem().regions()[j].guest_addr as int,
                    self.guest_mem().regions()[j].size as int,
                    addr,
                    size,
                ));
                assert(self.guest_mem().spec_overlaps(addr, addr + size));
            } else {
                let s = choose|s: u32|
                    #[trigger] self.slots().regions().dom().contains(s) && entry_matches_region(
                        d[i],
                        self.slots().regions()[s],
                    );
                assert(ranges_overlap(
                    self.slots().regions()[s].guest_addr as int,
                    self.slots().regions()[s].mapping.size as int,
                    addr,
                    size,
                ));
                assert(self.live_overlaps(addr, size));
            }
        }
        if self.guest_mem().spec_overlaps(addr, addr + size) {
            let j = choose|j: int|
                0 <= j < self.guest_mem().regions().len() && ranges_overlap(
                    (#[trigger] self.guest_mem().regions()[j]).guest_addr as int,
                    self.guest_mem().regions()[j].size as int,
                    addr,
                    size,
                );
            assert(driver_has_static(d, self.guest_mem().regions()[j]));
            let i = choose|i: int|
                0 <= i < d.len() && entry_matches_static(
                    #[trigger] d[i],
                    self.guest_mem().regions()[j],
                );
            assert(ranges_overlap(d[i].guest_addr as int, d[i].size as int, addr, size));
            assert(self.driver().spec_overlaps(addr, size));
        }
        if self.live_overlaps(addr, size) {
            let s = choose|s: u32|
                #[trigger] self.slots().regions().dom().contains(s) && ranges_overlap(
                    self.slots().regions()[s].guest_addr as int,
                    self.slots().regions()[s].mapping.size as int,
                    addr,
                    size,
                );
            assert(driver_has_region(d, self.slots().regions()[s]));
            let i = choose|i: int|
                0 <= i < d.len() && entry_matches_region(
                    #[trigger] d[i],
                    self.slots().regions()[s],
                );
            assert(ranges_overlap(d[i].guest_addr as int, d[i].size as int, addr, size));
            assert(self.driver().spec_overlaps(addr, size));
        }
    }

    /// Creates a handle for a fresh VM: opens the driver under the given
    /// configuration and registers every statically present region with
    /// it before any dynamic slot exists.
    pub fn new(config: DriverConfig, guest_mem: GuestAddressSpace) -> (r: core::result::Result<
        HaxmVm,
        Error,
    >)
        requires
            guest_mem.wf(),
            guest_mem.regions().len() <= u32::MAX,
        ensures
            match r {
                Ok(vm) => {
                    &&& vm.wf()
                    &&& vm.driver().config() == config
                    &&& vm.guest_mem() == guest_mem
                    &&& vm.slots().regions() == Map::<u32, MemoryRegion>::empty()
                    &&& vm.slots().gaps() == Seq::<u32>::empty()
                    &&& vm.slots().base() == guest_mem.regions().len()
                    &&& vm.ioevents().entries() == Seq::<(IoEventAddress, Event)>::empty()
                    &&& !vm.driver().log_file_registered()
                    &&& vm.driver().mapped().len() == guest_mem.regions().len()
                    &&& forall|k: int|
                        0 <= k < guest_mem.regions().len() ==> entry_matches_static(
                            #[trigger] vm.driver().mapped()[k],
                            guest_mem.regions()[k],
                        ) && !vm.driver().mapped()[k].read_only
                },
                Err(_) => false,
            },
    {
        let mut driver = Driver::create_vm(config, 0);
        let mut j: usize = 0;
        while j < guest_mem.num_regions()
            invariant
                guest_mem.wf(),
                j <= guest_mem.regions().len(),
                driver.wf(),
                driver.config() == config,
                !driver.log_file_registered(),
                driver.mapped().len() == j,
                forall|k: int|
                    0 <= k < j ==> entry_matches_static(
                        #[trigger] driver.mapped()[k],
                        guest_mem.regions()[k],
                    ) && !driver.mapped()[k].read_only,
            decreases guest_mem.regions().len() - j,
        {
            let region = guest_mem.region_at(j);
            let res = driver.map_region(region.guest_addr, region.size, region.host_addr, false);
            match res {
                Ok(()) => {},
                Err(_) => {
                    proof {
                        assert forall|i: int| 0 <= i < driver.mapped().len()
                            implies !ranges_overlap(
                            (#[trigger] driver.mapped()[i]).guest_addr as int,
                            driver.mapped()[i].size as int,
                            region.guest_addr as int,
                            region.size as int,
                        ) by {
                            assert(entry_matches_static(
                                driver.mapped()[i],
                                guest_mem.regions()[i],
                            ));
                            assert(!ranges_overlap(
                                guest_mem.regions()[i].guest_addr as int,
                                guest_mem.regions()[i].size as int,
                                guest_mem.regions()[j as int].guest_addr as int,
                                guest_mem.regions()[j as int].size as int,
                            ));
                        }
                        assert(false);
                    }
                },
            }
            j = j + 1;
        }
        let base = guest_mem.num_regions() as u32;
        let vm = HaxmVm {
            driver,
            guest_mem,
            slots: SlotTable::new(base),
            ioevents: IoEventRegistry::new(),
        };
        proof {
            assert forall|k: int| 0 <= k < vm.guest_mem().regions().len() implies driver_has_static(
                vm.driver().mapped(),
                #[trigger] vm.guest_mem().regions()[k],
            ) by {
                assert(entry_matches_static(
                    vm.driver().mapped()[k],
                    vm.guest_mem().regions()[k],
                ));
            }
            assert forall|i: int| 0 <= i < vm.driver().mapped().len() implies vm.entry_is_static(
                #[trigger] vm.driver().mapped()[i],
            ) || vm.entry_is_live(vm.driver().mapped()[i]) by {
                assert(entry_matches_static(
                    vm.driver().mapped()[i],
                    vm.guest_mem().regions()[i],
                ));
            }
        }
        Ok(vm)
    }

    /// Whether another region can still be given a slot number.
    pub fn can_allocate(&self) -> (r: bool)
        requires
            self.wf(),
        ensures
            r == (self.slots().bound() <= u32::MAX),
    {
        self.slots.can_allocate()
    }

    /// Registers `mem` at `guest_addr`, allocating the lowest available
    /// slot and mapping the region through the driver before committing
    /// it to the slot table; if the driver refuses, the speculatively
    /// taken slot is pushed back onto the gap list and nothing else
    /// changes. Ownership of the mapping transfers to the table. The
    /// candidate is checked against the static layout before the driver
    /// is consulted; the driver's own refusal of a range aliasing a live
    /// region surfaces as `NoSpace` too.
    pub fn add_memory_region(
        &mut self,
        guest_addr: GuestAddress,
        mem: Mapping,
        read_only: bool,
        log_dirty_pages: bool,
    ) -> (r: core::result::Result<MemSlot, Error>)
        requires
            old(self).wf(),
            old(self).slots().bound() <= u32::MAX,
        ensures
            final(self).wf(),
            final(self).guest_mem() == old(self).guest_mem(),
            final(self).ioevents() == old(self).ioevents(),
            final(self).slots().base() == old(self).slots().base(),
            final(self).driver().config() == old(self).driver().config(),
            final(self).driver().log_file_registered() == old(self).driver().log_file_registered(),
            match r {
                Ok(slot) => {
                    &&& old(self).add_outcome(guest_addr.0 as int, mem.size as int) is Ok
                    &&& slot == old(self).slots().next_slot()
                    &&& final(self).slots().regions() == old(self).slots().regions().insert(
                        slot,
                        MemoryRegion { guest_addr: guest_addr.0, mapping: mem },
                    )
                    &&& final(self).slots().gaps() == if old(self).slots().gaps().len() > 0 {
                        old(self).slots().gaps().drop_last()
                    } else {
                        old(self).slots().gaps()
                    }
                    &&& final(self).driver().mapped() == old(self).driver().mapped().push(
                        DriverMapping {
                            guest_addr: guest_addr.0,
                            size: mem.size,
                            host_addr: mem.host_addr,
                            read_only,
                        },
                    )
                },
                Err(e) => {
                    &&& Err::<(), Error>(e) == old(self).add_outcome(
                        guest_addr.0 as int,
                        mem.size as int,
                    )
                    &&& final(self).slots().regions() == old(self).slots().regions()
                    &&& final(self).slots().gaps() == if old(self).reaches_driver(
                        guest_addr.0 as int,
                        mem.size as int,
                    ) && old(self).slots().gaps().len() == 0 {
                        old(self).slots().gaps().push(old(self).slots().next_slot() as u32)
                    } else {
                        old(self).slots().gaps()
                    }
                    &&& final(self).driver().mapped() == old(self).driver().mapped()
                },
            },
    {
        let _ = log_dirty_pages;
        let size = mem.size();
        if guest_addr.0 > u64::MAX - size {
            return Err(Error::AddressOverflow);
        }
        let end_addr = guest_addr.0 + size;
        if self.guest_mem.range_overlap(guest_addr.0, end_addr) {
            return Err(Error::NoSpace);
        }
        let slot = self.slots.take_slot();
        let res = self.driver.map_region(guest_addr.0, size, mem.host_addr(), read_only);
        match res {
            Err(_) => {
                self.slots.restore(slot);
                proof {
                    if old(self).slots().gaps().len() > 0 {
                        assert(self.slots().gaps() =~= old(self).slots().gaps());
                    } else {
                        assert(self.slots().gaps() =~= old(self).slots().gaps().push(
                            old(self).slots().next_slot() as u32,
                        ));
                    }
                    if size > 0 {
                        old(self).lemma_driver_overlap(guest_addr.0 as int, size as int);
                    }
                }
                Err(Error::NoSpace)
            },
            Ok(()) => {
                proof {
                    old(self).lemma_driver_overlap(guest_addr.0 as int, size as int);
                }
                let region = MemoryRegion { guest_addr: guest_addr.0, mapping: mem };
                self.slots.commit(slot, region);
                proof {
                    let pre = *old(self);
                    let post = *self;
                    let entry = DriverMapping {
                        guest_addr: guest_addr.0,
                        size: mem.size,
                        host_addr: mem.host_addr,
                        read_only,
                    };
                    let d = pre.driver().mapped();
                    let nd = post.driver().mapped();
                    assert(nd == d.push(entry));
                    assert(post.slots().regions() == pre.slots().regions().insert(slot, region));
                    assert(post.statics_mapped()) by {
                        assert forall|j: int|
                            0 <= j < post.guest_mem().regions().len() implies driver_has_static(
                            nd,
                            #[trigger] post.guest_mem().regions()[j],
                        ) by {
                            assert(driver_has_static(d, pre.guest_mem().regions()[j]));
                            let i = choose|i: int|
                                0 <= i < d.len() && entry_matches_static(
                                    #[trigger] d[i],
                                    pre.guest_mem().regions()[j],
                                );
                            assert(nd[i] == d[i]);
                            assert(entry_matches_static(nd[i], post.guest_mem().regions()[j]));
                        }
                    }
                    assert(post.regions_mapped()) by {
                        assert forall|s: u32|
                            #[trigger] post.slots().regions().dom().contains(
                                s,
                            ) implies driver_has_region(nd, post.slots().regions()[s]) by {
                            if s == slot {
                                let i = nd.len() - 1;
                                assert(nd[i] == entry);
                                assert(entry_matches_region(nd[i], post.slots().regions()[s]));
                            } else {
                                assert(pre.slots().regions().dom().contains(s));
                                assert(driver_has_region(d, pre.slots().regions()[s]));
                                let i = choose|i: int|
                                    0 <= i < d.len() && entry_matches_region(
                                        #[trigger] d[i],
                                        pre.slots().regions()[s],
                                    );
                                assert(nd[i] == d[i]);
                                assert(entry_matches_region(nd[i], post.slots().regions()[s]));
                            }
                        }
                    }
                    assert(post.driver_covered()) by {
                        assert forall|i: int| 0 <= i < nd.len() implies post.entry_is_static(
                            #[trigger] nd[i],
                        ) || post.entry_is_live(nd[i]) by {
                            if i == d.len() {
                                assert(nd[i] == entry);
                                assert(post.slots().regions().dom().contains(slot));
                                assert(entry_matches_region(nd[i], post.slots().regions()[slot]));
                                assert(post.entry_is_live(nd[i]));
                            } else {
                                assert(nd[i] == d[i]);
                                assert(pre.entry_is_static(d[i]) || pre.entry_is_live(d[i]));
                                if pre.entry_is_static(d[i]) {
                                    let j = choose|j: int|
                                        0 <= j < pre.guest_mem().regions().len()
                                            && entry_matches_static(
                                            d[i],
                                            #[trigger] pre.guest_mem().regions()[j],
                                        );
                                    assert(entry_matches_static(
                                        nd[i],
                                        post.guest_mem().regions()[j],
                                    ));
                                    assert(post.entry_is_static(nd[i]));
                                } else {
                                    let s = choose|s: u32|
                                        #[trigger] pre.slots().regions().dom().contains(s)
                                            && entry_matches_region(
                                            d[i],
                                            pre.slots().regions()[s],
                                        );
                                    assert(post.slots().regions().dom().contains(s));
                                    assert(s != slot);
                                    assert(entry_matches_region(
                                        nd[i],
                                        post.slots().regions()[s],
                                    ));
                                    assert(post.entry_is_live(nd[i]));
                                }
                            }
                        }
                    }
                    assert(post.regions_disjoint()) by {
                        assert(!pre.live_overlaps(guest_addr.0 as int, mem.size as int));
                        assert forall|s: u32|
                            #[trigger] post.slots().regions().dom().contains(s) implies {
                            &&& post.slots().regions()[s].mapping.size > 0
                            &&& post.slots().regions()[s].guest_addr
                                + post.slots().regions()[s].mapping.size <= u64::MAX
                            &&& !post.guest_mem().spec_overlaps(
                                post.slots().regions()[s].guest_addr as int,
                                post.slots().regions()[s].guest_addr
                                    + post.slots().regions()[s].mapping.size,
                            )
                        } by {
                            if s != slot {
                                assert(pre.slots().regions().dom().contains(s));
                            }
                        }
                        assert forall|s1: u32, s2: u32|
                            #[trigger] post.slots().regions().dom().contains(s1)
                                && #[trigger] post.slots().regions().dom().contains(s2) && s1 != s2
                            implies !ranges_overlap(
                            post.slots().regions()[s1].guest_addr as int,
                            post.slots().regions()[s1].mapping.size as int,
                            post.slots().regions()[s2].guest_addr as int,
                            post.slots().regions()[s2].mapping.size as int,
                        ) by {
                            if s1 == slot || s2 == slot {
                                let other: u32 = if s1 == slot {
                                    s2
                                } else {
                                    s1
                                };
                                assert(pre.slots().regions().dom().contains(other));
                                assert(!ranges_overlap(
                                    pre.slots().regions()[other].guest_addr as int,
                                    pre.slots().regions()[other].mapping.size as int,
                                    guest_addr.0 as int,
                                    mem.size as int,
                                ));
                            } else {
                                assert(pre.slots().regions().dom().contains(s1));
                                assert(pre.slots().regions().dom().contains(s2));
                            }
                        }
                    }
                }
                Ok(slot)
            },
        }
    }

    /// Unregisters the region at `slot`, unmapping its guest range
    /// through the driver before removing it from the table; ownership of
    /// the mapping transfers back to the caller, and the slot number is
    /// reclaimed for reuse. An unknown slot is refused and, because the
    /// table mirrors the driver, the driver's unmap of a known slot
    /// cannot fail, so no other error can come back.
    pub fn remove_memory_region(&mut self, slot: MemSlot) -> (r: core::result::Result<
        Mapping,
        Error,
    >)
        requires
            old(self).wf(),
        ensures
            final(self).wf(),
            final(self).guest_mem() == old(self).guest_mem(),
            final(self).ioevents() == old(self).ioevents(),
            final(self).slots().base() == old(self).slots().base(),
            final(self).driver().config() == old(self).driver().config(),
            final(self).driver().log_file_registered() == old(self).driver().log_file_registered(),
            match r {
                Ok(mapping) => {
                    &&& old(self).slots().regions().dom().contains(slot)
                    &&& mapping == old(self).slots().regions()[slot].mapping
                    &&& final(self).slots().regions() == old(self).slots().regions().remove(slot)
                    &&& final(self).slots().gaps().to_multiset() == old(
                        self,
                    ).slots().gaps().to_multiset().insert(slot)
                    &&& exists|i: int|
                        {
                            &&& 0 <= i < old(self).driver().mapped().len()
                            &&& entry_matches_region(
                                #[trigger] old(self).driver().mapped()[i],
                                old(self).slots().regions()[slot],
                            )
                            &&& final(self).driver().mapped() == old(self).driver().mapped().remove(
                                i,
                            )
                        }
                },
                Err(e) => {
                    &&& e == Error::NotFound
                    &&& !old(self).slots().regions().dom().contains(slot)
                    &&& final(self).slots().regions() == old(self).slots().regions()
                    &&& final(self).slots().gaps() == old(self).slots().gaps()
                    &&& final(self).driver().mapped() == old(self).driver().mapped()
                },
            },
    {
        let region = match self.slots.get(slot) {
            Some(region) => region,
            None => {
                return Err(Error::NotFound);
            },
        };
        let res = self.driver.unmap_region(region.guest_addr, region.mapping.size());
        match res {
            Err(_) => {
                proof {
                    let pre = *old(self);
                    assert(driver_has_region(pre.driver().mapped(), pre.slots().regions()[slot]));
                    let i = choose|i: int|
                        0 <= i < pre.driver().mapped().len() && entry_matches_region(
                            #[trigger] pre.driver().mapped()[i],
                            pre.slots().regions()[slot],
                        );
                    assert(pre.driver().mapped()[i].guest_addr == region.guest_addr);
                    assert(pre.driver().mapped()[i].size == region.mapping.size);
                    assert(false);
                }
                Err(Error::NotFound)
            },
            Ok(()) => {
                let ghost pre = *old(self);
                let ghost i0 = choose|i: int|
                    {
                        &&& 0 <= i < pre.driver().mapped().len()
                        &&& (#[trigger] pre.driver().mapped()[i]).guest_addr == region.guest_addr
                        &&& pre.driver().mapped()[i].size == region.mapping.size
                        &&& self.driver().mapped() == pre.driver().mapped().remove(i)
                    };
                let mapping = self.slots.remove(slot).mapping;
                proof {
                    let post = *self;
                    let d = pre.driver().mapped();
                    let nd = post.driver().mapped();
                    assert(0 <= i0 < d.len() && d[i0].guest_addr == region.guest_addr
                        && d[i0].size == region.mapping.size && nd == d.remove(i0));
                    d.remove_ensures(i0);
                    // The removed entry is the unique entry with this
                    // guest range: any other entry with the same range
                    // would overlap it, which the driver's record never
                    // allows.
                    assert(entry_matches_region(d[i0], pre.slots().regions()[slot])) by {
                        assert(driver_has_region(d, pre.slots().regions()[slot]));
                        let iw = choose|i: int|
                            0 <= i < d.len() && entry_matches_region(
                                #[trigger] d[i],
                                pre.slots().regions()[slot],
                            );
                        if iw != i0 {
                            assert(ranges_overlap(
                                d[iw].guest_addr as int,
                                d[iw].size as int,
                                d[i0].guest_addr as int,
                                d[i0].size as int,
                            ));
                        }
                    }
                    assert(post.statics_mapped()) by {
                        assert forall|j: int|
                            0 <= j < post.guest_mem().regions().len() implies driver_has_static(
                            nd,
                            #[trigger] post.guest_mem().regions()[j],
                        ) by {
                            assert(driver_has_static(d, pre.guest_mem().regions()[j]));
                            let iw = choose|i: int|
                                0 <= i < d.len() && entry_matches_static(
                                    #[trigger] d[i],
                                    pre.guest_mem().regions()[j],
                                );
                            assert(iw != i0) by {
                                if iw == i0 {
                                    assert(ranges_overlap(
                                        pre.guest_mem().regions()[j].guest_addr as int,
                                        pre.guest_mem().regions()[j].size as int,
                                        pre.slots().regions()[slot].guest_addr as int,
                                        pre.slots().regions()[slot].mapping.size as int,
                                    ));
                                    assert(pre.guest_mem().spec_overlaps(
                                        pre.slots().regions()[slot].guest_addr as int,
                                        pre.slots().regions()[slot].guest_addr
                                            + pre.slots().regions()[slot].mapping.size,
                                    ));
                                }
                            }
                            let ni: int = if iw < i0 {
                                iw
                            } else {
                                iw - 1
                            };
                            assert(nd[ni] == d[iw]);
                            assert(entry_matches_static(nd[ni], post.guest_mem().regions()[j]));
                        }
                    }
                    assert(post.regions_mapped()) by {
                        assert forall|s: u32|
                            #[trigger] post.slots().regions().dom().contains(
                                s,
                            ) implies driver_has_region(nd, post.slots().regions()[s]) by {
                            assert(pre.slots().regions().dom().contains(s));
                            assert(s != slot);
                            assert(driver_has_region(d, pre.slots().regions()[s]));
                            let iw = choose|i: int|
                                0 <= i < d.len() && entry_matches_region(
                                    #[trigger] d[i],
                                    pre.slots().regions()[s],
                                );
                            assert(iw != i0) by {
                                if iw == i0 {
                                    assert(ranges_overlap(
                                        pre.slots().regions()[s].guest_addr as int,
                                        pre.slots().regions()[s].mapping.size as int,
                                        pre.slots().regions()[slot].guest_addr as int,
                                        pre.slots().regions()[slot].mapping.size as int,
                                    ));
                                }
                            }
                            let ni: int = if iw < i0 {
                                iw
                            } else {
                                iw - 1
                            };
                            assert(nd[ni] == d[iw]);
                            assert(entry_matches_region(nd[ni], post.slots().regions()[s]));
                        }
                    }
                    assert(post.driver_covered()) by {
                        assert forall|i: int| 0 <= i < nd.len() implies post.entry_is_static(
                            #[trigger] nd[i],
                        ) || post.entry_is_live(nd[i]) by {
                            let oi: int = if i < i0 {
                                i
                            } else {
                                i + 1
                            };
                            assert(nd[i] == d[oi]);
                            assert(pre.entry_is_static(d[oi]) || pre.entry_is_live(d[oi]));
                            if pre.entry_is_static(d[oi]) {
                                let j = choose|j: int|
                                    0 <= j < pre.guest_mem().regions().len()
                                        && entry_matches_static(
                                        d[oi],
                                        #[trigger] pre.guest_mem().regions()[j],
                                    );
                                assert(entry_matches_static(nd[i], post.guest_mem().regions()[j]));
                                assert(post.entry_is_static(nd[i]));
                            } else {
                                let s = choose|s: u32|
                                    #[trigger] pre.slots().regions().dom().contains(s)
                                        && entry_matches_region(d[oi], pre.slots().regions()[s]);
                                assert(s != slot) by {
                                    if s == slot {
                                        assert(oi != i0);
                                        assert(ranges_overlap(
                                            d[oi].guest_addr as int,
                                            d[oi].size as int,
                                            d[i0].guest_addr as int,
                                            d[i0].size as int,
                                        ));
                                    }
                                }
                                assert(post.slots().regions().dom().contains(s));
                                assert(entry_matches_region(nd[i], post.slots().regions()[s]));
                                assert(post.entry_is_live(nd[i]));
                            }
                        }
                    }
                    assert(post.regions_disjoint()) by {
                        assert forall|s: u32|
                            #[trigger] post.slots().regions().dom().contains(s) implies pre.slots().regions().dom().contains(
                            s,
                        ) by {}
                    }
                }
                Ok(mapping)
            },
        }
    }

    /// Flushes a range of the mapping registered at `slot` to its
    /// backing store, delegating to the owned mapping and translating
    /// mapping-layer errors into the monitor's coded taxonomy. Nothing in
    /// the handle changes.
    pub fn msync_memory_region(&mut self, slot: MemSlot, offset: usize, size: usize) -> (r:
        core::result::Result<(), Error>)
        requires
            old(self).wf(),
        ensures
            *final(self) == *old(self),
            match r {
                Ok(()) => {
                    &&& old(self).slots().regions().dom().contains(slot)
                    &&& offset + size <= old(self).slots().regions()[slot].mapping.size
                },
                Err(e) => {
                    &&& (e == Error::NotFound <==> !old(self).slots().regions().dom().contains(
                        slot,
                    ))
                    &&& (e == Error::DriverError(ERR_BAD_ADDRESS)
                        <==> old(self).slots().regions().dom().contains(slot)
                        && offset + size > old(self).slots().regions()[slot].mapping.size)
                    &&& (e == Error::NotFound || e == Error::DriverError(ERR_BAD_ADDRESS))
                },
            },
    {
        let region = match self.slots.get(slot) {
            Some(region) => region,
            None => {
                return Err(Error::NotFound);
            },
        };
        match region.mapping.msync(offset, size) {
            Ok(()) => Ok(()),
            Err(MapError::InvalidAddress) => Err(Error::DriverError(ERR_BAD_ADDRESS)),
            Err(_) => Err(Error::DriverError(ERR_IO)),
        }
    }

    /// Maps part of a file's contents over a range of the mapping at
    /// `slot`. The plain mappings this backend registers own no arena to
    /// splice into, so a known slot always reports the coded I/O error;
    /// an unknown slot is `NotFound`.
    pub fn add_fd_mapping(
        &mut self,
        slot: MemSlot,
        offset: usize,
        size: usize,
        fd_offset: u64,
        writable: bool,
    ) -> (r: core::result::Result<(), Error>)
        requires
            old(self).wf(),
        ensures
            *final(self) == *old(self),
            r == Err::<(), Error>(
                if old(self).slots().regions().dom().contains(slot) {
                    Error::DriverError(ERR_IO)
                } else {
                    Error::NotFound
                },
            ),
    {
        let _ = fd_offset;
        let _ = writable;
        let region = match self.slots.get(slot) {
            Some(region) => region,
            None => {
                return Err(Error::NotFound);
            },
        };
        match region.mapping.add_fd_mapping(offset, size) {
            Ok(()) => Ok(()),
            Err(_) => Err(Error::DriverError(ERR_IO)),
        }
    }

    /// Replaces a range of the mapping at `slot` with anonymous memory.
    /// The plain mappings this backend registers own no arena to splice
    /// into, so a known slot always reports the coded I/O error; an
    /// unknown slot is `NotFound`.
    pub fn remove_mapping(&mut self, slot: MemSlot, offset: usize, size: usize) -> (r:
        core::result::Result<(), Error>)
        requires
            old(self).wf(),
        ensures
            *final(self) == *old(self),
            r == Err::<(), Error>(
                if old(self).slots().regions().dom().contains(slot) {
                    Error::DriverError(ERR_IO)
                } else {
                    Error::NotFound
                },
            ),
    {
        let region = match self.slots.get(slot) {
            Some(region) => region,
            None => {
                return Err(Error::NotFound);
            },
        };
        match region.mapping.remove_mapping(offset, size) {
            Ok(()) => Ok(()),
            Err(_) => Err(Error::DriverError(ERR_IO)),
        }
    }

    /// Binds `evt` at `addr` so that a guest doorbell write there
    /// signals it. This backend supports exactly one match discipline,
    /// any-length write, and refuses every other with `Unsupported`; an
    /// address that already has an event bound is `AlreadyRegistered`.
    pub fn register_ioevent(&mut self, evt: &Event, addr: IoEventAddress, datamatch: Datamatch) -> (
    r: core::result::Result<(), Error>)
        requires
            old(self).wf(),
        ensures
            final(self).wf(),
            final(self).guest_mem() == old(self).guest_mem(),
            final(self).slots() == old(self).slots(),
            final(self).driver() == old(self).driver(),
            match r {
                Ok(()) => {
                    &&& datamatch == Datamatch::AnyLength
                    &&& !old(self).ioevents().is_bound(addr)
                    &&& final(self).ioevents().entries() == old(self).ioevents().entries().push(
                        (addr, *evt),
                    )
                },
                Err(e) => {
                    &&& final(self).ioevents().entries() == old(self).ioevents().entries()
                    &&& (e == Error::Unsupported <==> datamatch != Datamatch::AnyLength)
                    &&& (e == Error::AlreadyRegistered <==> datamatch == Datamatch::AnyLength
                        && old(self).ioevents().is_bound(addr))
                    &&& (e == Error::Unsupported || e == Error::AlreadyRegistered)
                },
            },
    {
        if !matches!(datamatch, Datamatch::AnyLength) {
            return Err(Error::Unsupported);
        }
        self.ioevents.register(evt, addr)
    }

    /// Removes the binding at `addr`, which must have been made with the
    /// same event handle and the same (any-length) match discipline; a
    /// foreign event is `Mismatch` and an unbound address `NotFound`,
    /// and in both cases the existing binding survives untouched.
    pub fn unregister_ioevent(
        &mut self,
        evt: &Event,
        addr: IoEventAddress,
        datamatch: Datamatch,
    ) -> (r: core::result::Result<(), Error>)
        requires
            old(self).wf(),
        ensures
            final(self).wf(),
            final(self).guest_mem() == old(self).guest_mem(),
            final(self).slots() == old(self).slots(),
            final(self).driver() == old(self).driver(),
            match r {
                Ok(()) => {
                    &&& datamatch == Datamatch::AnyLength
                    &&& old(self).ioevents().is_bound(addr)
                    &&& old(self).ioevents().bound_event(addr).id == evt.id
                    &&& final(self).ioevents().entries() == old(self).ioevents().entries().remove(
                        old(self).ioevents().index_of(addr),
                    )
                },
                Err(e) => {
                    &&& final(self).ioevents().entries() == old(self).ioevents().entries()
                    &&& (e == Error::Unsupported <==> datamatch != Datamatch::AnyLength)
                    &&& (e == Error::NotFound <==> datamatch == Datamatch::AnyLength
                        && !old(self).ioevents().is_bound(addr))
                    &&& (e == Error::Mismatch <==> datamatch == Datamatch::AnyLength
                        && old(self).ioevents().is_bound(addr)
                        && old(self).ioevents().bound_event(addr).id != evt.id)
                    &&& (e == Error::Unsupported || e == Error::NotFound || e == Error::Mismatch)
                },
            },
    {
        if !matches!(datamatch, Datamatch::AnyLength) {
            return Err(Error::Unsupported);
        }
        self.ioevents.unregister(evt, addr)
    }

    /// Triggers any io-event bound at `addr`: the bound event is
    /// signalled exactly once, and an address with no binding is a pure
    /// no-op that still succeeds. Safe for the hot guest-exit path: no
    /// allocation, no error.
    pub fn handle_io_events(&mut self, addr: IoEventAddress, data: &[u8]) -> (r:
        core::result::Result<(), Error>)
        requires
            old(self).wf(),
        ensures
            final(self).wf(),
            final(self).guest_mem() == old(self).guest_mem(),
            final(self).slots() == old(self).slots(),
            final(self).driver() == old(self).driver(),
            r == Ok::<(), Error>(()),
            old(self).ioevents().is_bound(addr) ==> final(self).ioevents().entries()
                == old(self).ioevents().entries().update(
                old(self).ioevents().index_of(addr),
                (addr, crate::ioevents::spec_signaled(old(self).ioevents().bound_event(addr))),
            ),
            !old(self).ioevents().is_bound(addr) ==> final(self).ioevents().entries()
                == old(self).ioevents().entries(),
    {
        let _ = data;
        self.ioevents.dispatch(addr)
    }

    /// The accumulated signal count of the event bound at `addr`, if one
    /// is bound: how often doorbell writes there have been delivered.
    pub fn ioevent_count(&self, addr: IoEventAddress) -> (r: Option<u64>)
        requires
            self.wf(),
        ensures
            self.ioevents().is_bound(addr) ==> r == Some(self.ioevents().bound_event(addr).count),
            !self.ioevents().is_bound(addr) ==> r is None,
    {
        self.ioevents.signal_count(addr)
    }

    /// Reports whether this backend offers the capability: it offers
    /// none of them, and says so up front rather than failing late.
    pub fn check_capability(&self, c: VmCap) -> (r: bool)
        ensures
            r == false,
    {
        let _ = c;
        false
    }

    /// Tests a raw capability bit against the word the backend reports.
    pub fn check_raw_capability(&self, cap: u32) -> (r: bool)
        ensures
            r == ((cap & self.driver().config().capability_word) != 0),
    {
        self.driver.query_capability(cap)
    }

    /// Registers a per-VM log file with the backend. Only the extended
    /// backend variant understands the request; on the stock variant the
    /// call is accepted as a no-op. A path too long for the backend's
    /// fixed-size registration record is refused with the backend's
    /// too-big code.
    pub fn register_log_file(&mut self, path: &str) -> (r: core::result::Result<(), Error>)
        requires
            old(self).wf(),
        ensures
            final(self).wf(),
            final(self).guest_mem() == old(self).guest_mem(),
            final(self).slots() == old(self).slots(),
            final(self).ioevents() == old(self).ioevents(),
            final(self).driver().config() == old(self).driver().config(),
            final(self).driver().mapped() == old(self).driver().mapped(),
            match r {
                Ok(()) => {
                    &&& old(self).driver().config().variant == DriverVariant::Extended
                        ==> path.spec_bytes().len() < LOG_FILE_PATH_CAPACITY
                        && final(self).driver().log_file_registered()
                    &&& old(self).driver().config().variant != DriverVariant::Extended
                        ==> final(self).driver().log_file_registered()
                        == old(self).driver().log_file_registered()
                },
                Err(e) => {
                    &&& e == Error::DriverError(ERR_TOO_BIG)
                    &&& old(self).driver().config().variant == DriverVariant::Extended
                    &&& path.spec_bytes().len() >= LOG_FILE_PATH_CAPACITY
                    &&& final(self).driver().log_file_registered()
                        == old(self).driver().log_file_registered()
                },
            },
    {
        let extended = matches!(self.driver.config_variant(), DriverVariant::Extended);
        if extended {
            if path.as_bytes_vec().len() >= LOG_FILE_PATH_CAPACITY {
                return Err(Error::DriverError(ERR_TOO_BIG));
            }
            self.driver.record_log_file();
        }
        Ok(())
    }

    /// Whether a per-VM log file has been registered with the backend.
    pub fn log_file_registered(&self) -> (r: bool)
        ensures
            r == self.driver().log_file_registered(),
    {
        self.driver.log_registered()
    }

    /// Asks the backend to create an in-kernel device. This backend has
    /// no in-kernel devices, so the request is always unsupported.
    pub fn create_device(&self, kind: DeviceKind) -> (r: core::result::Result<u32, Error>)
        ensures
            r == Err::<u32, Error>(Error::Unsupported),
    {
        let _ = kind;
        Err(Error::Unsupported)
    }

    /// Fetches the dirty-page log for a slot. This backend cannot log
    /// dirty pages, so the request is always unsupported.
    pub fn get_dirty_log(&self, slot: u32, dirty_log: &mut Vec<u8>) -> (r: core::result::Result<
        (),
        Error,
    >)
        ensures
            r == Err::<(), Error>(Error::Unsupported),
            final(dirty_log)@ == old(dirty_log)@,
    {
        let _ = slot;
        Err(Error::Unsupported)
    }

    /// Reads the paravirtual clock state. This backend has no
    /// paravirtual clock, so the request is always unsupported.
    pub fn get_pvclock(&self) -> (r: core::result::Result<u64, Error>)
        ensures
            r == Err::<u64, Error>(Error::Unsupported),
    {
        Err(Error::Unsupported)
    }

    /// Writes the paravirtual clock state. This backend has no
    /// paravirtual clock, so the request is always unsupported.
    pub fn set_pvclock(&self, state: u64) -> (r: core::result::Result<(), Error>)
        ensures
            r == Err::<(), Error>(Error::Unsupported),
    {
        let _ = state;
        Err(Error::Unsupported)
    }

    /// Accepts a balloon-deflate request as a no-op: ballooning is
    /// best-effort and this backend does not implement it, so the
    /// request is deliberately accepted rather than refused.
    pub fn handle_deflate(&mut self, guest_address: GuestAddress, size: u64) -> (r:
        core::result::Result<(), Error>)
        ensures
            *final(self) == *old(self),
            r == Ok::<(), Error>(()),
    {
        let _ = guest_address;
        let _ = size;
        Ok(())
    }

    /// Accepts a balloon-inflate request as a no-op: ballooning is
    /// best-effort and this backend does not implement it, so the
    /// request is deliberately accepted rather than refused.
    pub fn handle_inflate(&mut self, guest_address: GuestAddress, size: u64) -> (r:
        core::result::Result<(), Error>)
        ensures
            *final(self) == *old(self),
            r == Ok::<(), Error>(()),
    {
        let _ = guest_address;
        let _ = size;
        Ok(())
    }

    /// The guest physical address width, assumed equal to the host's,
    /// which the driver reports in its configuration.
    pub fn get_guest_phys_addr_bits(&self) -> (r: u8)
        ensures
            r == self.driver().config().phys_addr_bits,
    {
        self.driver.phys_addr_bits()
    }

    /// The identifier the backend assigned to this VM at creation.
    pub fn vm_id(&self) -> (r: u32)
        ensures
            r == self.driver().vm_id(),
    {
        self.driver_ref().raw_vm_id()
    }

    /// Read access to the driver connection, for the vCPU factory.
    pub fn driver_ref(&self) -> (r: &Driver)
        ensures
            *r == self.driver(),
    {
        &self.driver
    }

    /// The static guest memory layout the VM was created with.
    pub fn get_memory(&self) -> (r: &GuestAddressSpace)
        ensures
            *r == self.guest_mem(),
    {
        &self.guest_mem
    }

    /// Sets the address of the region used by sixteen-bit guests, which
    /// this backend does not support: accepted and ignored.
    pub fn set_tss_addr(&self, addr: GuestAddress) -> (r: core::result::Result<(), Error>)
        ensures
            r == Ok::<(), Error>(()),
    {
        let _ = addr;
        Ok(())
    }

    /// Sets the identity-map address used by sixteen-bit guests, which
    /// this backend does not support: accepted and ignored.
    pub fn set_identity_map_addr(&self, addr: GuestAddress) -> (r: core::result::Result<(), Error>)
        ensures
            r == Ok::<(), Error>(()),
    {
        let _ = addr;
        Ok(())
    }

    /// Clones the handle for another vCPU thread: the driver connection
    /// is cloned, the io-event bindings are deep-cloned (a failure of any
    /// single event clone would abort the whole clone with the first
    /// error), and the slot table and static layout carry over.
    pub fn try_clone(&self) -> (r: core::result::Result<HaxmVm, Error>)
        requires
            self.wf(),
        ensures
            match r {
                Ok(vm) => {
                    &&& vm.wf()
                    &&& vm.driver().config() == self.driver().config()
                    &&& vm.driver().vm_id() == self.driver().vm_id()
                    &&& vm.driver().log_file_registered() == self.driver().log_file_registered()
                    &&& vm.driver().mapped() == self.driver().mapped()
                    &&& vm.guest_mem().regions() == self.guest_mem().regions()
                    &&& vm.slots().base() == self.slots().base()
                    &&& vm.slots().regions() == self.slots().regions()
                    &&& vm.slots().gaps() == self.slots().gaps()
                    &&& vm.ioevents().entries() == self.ioevents().entries()
                },
                Err(_) => false,
            },
    {
        let ioevents = match self.ioevents.try_clone() {
            Ok(ioevents) => ioevents,
            Err(e) => {
                return Err(e);
            },
        };
        let vm = HaxmVm {
            driver: self.driver.try_clone(),
            guest_mem: self.guest_mem.duplicate(),
            slots: self.slots.duplicate(),
            ioevents,
        };
        Ok(vm)
    }
}

} // verus!
