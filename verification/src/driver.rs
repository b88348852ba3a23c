//! The boundary to the hardware-virtualization backend: the narrow, typed
//! interface through which the monitor creates a VM, maps and unmaps guest
//! ranges, creates vCPUs and queries capabilities. All backend variants
//! are a closed set chosen by an explicit configuration value at
//! construction; there is no ambient global selecting one.
//!
//! The driver keeps its own record of which guest ranges it currently has
//! mapped and refuses a mapping that would alias one of them, so the VM
//! facade can prove that its slot table is at all times a faithful mirror
//! of the driver's state.

use vstd::prelude::*;

use crate::ranges_overlap;

verus! {

/// Classic platform error code: invalid argument.
pub const ERR_INVALID: u32 = 22;

/// Classic platform error code: no space left.
pub const ERR_NO_SPACE: u32 = 28;

/// Classic platform error code: entry not found.
pub const ERR_NOT_FOUND: u32 = 2;

/// Classic platform error code: argument too long.
pub const ERR_TOO_BIG: u32 = 7;

/// The closed set of supported backend variants. `Extended` is the fork
/// of the backend that additionally accepts a per-VM log file.
#[derive(Clone, Copy, Debug, PartialEq, Eq, Structural)]
pub enum DriverVariant {
    /// The stock backend.
    Standard,
    /// The fork with per-VM log file support.
    Extended,
}

/// Configuration handed to the driver at construction: which backend
/// variant to drive, the capability word the backend reports, the guest
/// physical address width, and the tunnel geometry the backend hands out
/// for each vCPU.
#[derive(Clone, Copy, Debug, PartialEq, Eq, Structural)]
pub struct DriverConfig {
    /// Which backend variant is driven.
    pub variant: DriverVariant,
    /// The raw capability word the backend reports.
    pub capability_word: u32,
    /// The guest physical address width in bits.
    pub phys_addr_bits: u8,
    /// Host virtual address of a vCPU's exit-communication tunnel.
    pub tunnel_va: u64,
    /// Size in bytes of a vCPU's exit-communication tunnel.
    pub tunnel_size: u64,
    /// Host virtual address of a vCPU's I/O buffer.
    pub io_va: u64,
}

/// One guest range the driver currently has mapped.
#[derive(Clone, Copy, Debug, PartialEq, Eq, Structural)]
pub struct DriverMapping {
    /// Guest physical address of the first byte.
    pub guest_addr: u64,
    /// Length in bytes.
    pub size: u64,
    /// Host virtual address the range is backed by.
    pub host_addr: u64,
    /// Whether the range was mapped read-only.
    pub read_only: bool,
}

/// A connection to the backend for one VM: the driver-side state this
/// layer is the sole guarantor of.
pub struct Driver {
    config: DriverConfig,
    vm_id: u32,
    mapped: Vec<DriverMapping>,
    log_file_registered: bool,
}

/// Every mapped range is non-empty and its end fits in the address width.
pub open spec fn mappings_bounded(s: Seq<DriverMapping>) -> bool {
    forall|i: int|
        0 <= i < s.len() ==> {
            &&& (#[trigger] s[i]).size > 0
            &&& s[i].guest_addr + s[i].size <= u64::MAX
        }
}

/// No two mapped ranges intersect.
pub open spec fn mappings_disjoint(s: Seq<DriverMapping>) -> bool {
    forall|i: int, j: int|
        0 <= i < s.len() && 0 <= j < s.len() && i != j ==> !ranges_overlap(
            (#[trigger] s[i]).guest_addr as int,
            s[i].size as int,
            (#[trigger] s[j]).guest_addr as int,
            s[j].size as int,
        )
}

impl Driver {
    /// The configuration the driver was constructed with.
    pub closed spec fn config(self) -> DriverConfig {
        self.config
    }

    /// The identifier the backend assigned to this VM.
    pub closed spec fn vm_id(self) -> u32 {
        self.vm_id
    }

    /// The guest ranges the driver currently has mapped, oldest first.
    pub closed spec fn mapped(self) -> Seq<DriverMapping> {
        self.mapped@
    }

    /// Whether a log file has been registered for this VM.
    pub closed spec fn log_file_registered(self) -> bool {
        self.log_file_registered
    }

    /// The driver's record is well formed: all ranges non-empty, in
    /// bounds, and pairwise disjoint.
    pub open spec fn wf(self) -> bool {
        &&& mappings_bounded(self.mapped())
        &&& mappings_disjoint(self.mapped())
    }

    /// Whether some currently mapped range intersects `[addr, addr + size)`.
    pub open spec fn spec_overlaps(self, addr: int, size: int) -> bool {
        exists|i: int|
            0 <= i < self.mapped().len() && ranges_overlap(
                (#[trigger] self.mapped()[i]).guest_addr as int,
                self.mapped()[i].size as int,
                addr,
                size,
            )
    }

    /// Opens a connection to the backend and creates a VM under it.
    pub fn create_vm(config: DriverConfig, vm_id: u32) -> (r: Driver)
        ensures
            r.wf(),
            r.config() == config,
            r.vm_id() == vm_id,
            r.mapped() == Seq::<DriverMapping>::empty(),
            !r.log_file_registered(),
    {
        Driver { config, vm_id, mapped: Vec::new(), log_file_registered: false }
    }

    /// Asks the backend to map `size` bytes of host memory at `host_addr`
    /// into the guest at `guest_addr`. The backend refuses an empty or
    /// out-of-bounds range and one that aliases a range it already has
    /// mapped; on refusal its state is unchanged.
    pub fn map_region(&mut self, guest_addr: u64, size: u64, host_addr: u64, read_only: bool) -> (r:
        core::result::Result<(), u32>)
        requires
            old(self).wf(),
        ensures
            final(self).wf(),
            final(self).config() == old(self).config(),
            final(self).vm_id() == old(self).vm_id(),
            final(self).log_file_registered() == old(self).log_file_registered(),
            match r {
                Ok(()) => {
                    &&& size > 0
                    &&& guest_addr + size <= u64::MAX
                    &&& !old(self).spec_overlaps(guest_addr as int, size as int)
                    &&& final(self).mapped() == old(self).mapped().push(
                        DriverMapping { guest_addr, size, host_addr, read_only },
                    )
                },
                Err(code) => {
                    &&& final(self).mapped() == old(self).mapped()
                    &&& (code == ERR_INVALID || code == ERR_NO_SPACE)
                    &&& (code == ERR_INVALID <==> (size == 0 || guest_addr + size > u64::MAX))
                    &&& (code == ERR_NO_SPACE <==> (size > 0 && guest_addr + size <= u64::MAX
                        && old(self).spec_overlaps(guest_addr as int, size as int)))
                },
            },
    {
        if size == 0 || guest_addr > u64::MAX - size {
            return Err(ERR_INVALID);
        }
        let mut i: usize = 0;
        while i < self.mapped.len()
            invariant
                *self == *old(self),
                self.wf(),
                i <= self.mapped().len(),
                size > 0,
                guest_addr + size <= u64::MAX,
                forall|k: int|
                    0 <= k < i ==> !ranges_overlap(
                        (#[trigger] self.mapped()[k]).guest_addr as int,
                        self.mapped()[k].size as int,
                        guest_addr as int,
                        size as int,
                    ),
            decreases self.mapped().len() - i,
        {
            let m = self.mapped[i];
            if m.guest_addr < guest_addr.wrapping_add(size) && guest_addr < m.guest_addr
                .wrapping_add(m.size) {
                return Err(ERR_NO_SPACE);
            }
            i = i + 1;
        }
        let entry = DriverMapping { guest_addr, size, host_addr, read_only };
        assert forall|i: int, j: int|
            0 <= i < self.mapped().push(entry).len() && 0 <= j < self.mapped().push(entry).len()
                && i != j implies !ranges_overlap(
            (#[trigger] self.mapped().push(entry)[i]).guest_addr as int,
            self.mapped().push(entry)[i].size as int,
            (#[trigger] self.mapped().push(entry)[j]).guest_addr as int,
            self.mapped().push(entry)[j].size as int,
        ) by {
            let s = self.mapped();
            if i < s.len() && j < s.len() {
                assert(!ranges_overlap(
                    s[i].guest_addr as int,
                    s[i].size as int,
                    s[j].guest_addr as int,
                    s[j].size as int,
                ));
            }
        }
        self.mapped.push(entry);
        Ok(())
    }

    /// Asks the backend to drop its mapping of `[guest_addr, guest_addr +
    /// size)`. The backend refuses a range it does not have mapped exactly;
    /// on refusal its state is unchanged.
    pub fn unmap_region(&mut self, guest_addr: u64, size: u64) -> (r: core::result::Result<(), u32>)
        requires
            old(self).wf(),
        ensures
            final(self).wf(),
            final(self).config() == old(self).config(),
            final(self).vm_id() == old(self).vm_id(),
            final(self).log_file_registered() == old(self).log_file_registered(),
            match r {
                Ok(()) => exists|i: int|
                    {
                        &&& 0 <= i < old(self).mapped().len()
                        &&& (#[trigger] old(self).mapped()[i]).guest_addr == guest_addr
                        &&& old(self).mapped()[i].size == size
                        &&& final(self).mapped() == old(self).mapped().remove(i)
                    },
                Err(code) => {
                    &&& final(self).mapped() == old(self).mapped()
                    &&& code == ERR_NOT_FOUND
                    &&& forall|i: int|
                        0 <= i < old(self).mapped().len() ==> !((#[trigger] old(
                            self,
                        ).mapped()[i]).guest_addr == guest_addr && old(self).mapped()[i].size
                            == size)
                },
            },
    {
        let mut i: usize = 0;
        while i < self.mapped.len()
            invariant
                *self == *old(self),
                self.wf(),
                i <= self.mapped().len(),
                forall|k: int|
                    0 <= k < i ==> !((#[trigger] self.mapped()[k]).guest_addr == guest_addr
                        && self.mapped()[k].size == size),
            decreases self.mapped().len() - i,
        {
            let m = self.mapped[i];
            if m.guest_addr == guest_addr && m.size == size {
                let ghost old_mapped = self.mapped();
                self.mapped.remove(i);
                proof {
                    old_mapped.remove_ensures(i as int);
                    assert forall|x: int, y: int|
                        0 <= x < self.mapped().len() && 0 <= y < self.mapped().len() && x != y
                            implies !ranges_overlap(
                        (#[trigger] self.mapped()[x]).guest_addr as int,
                        self.mapped()[x].size as int,
                        (#[trigger] self.mapped()[y]).guest_addr as int,
                        self.mapped()[y].size as int,
                    ) by {
                        let ox: int = if x < i { x } else { x + 1 };
                        let oy: int = if y < i { y } else { y + 1 };
                        assert(self.mapped()[x] == old_mapped[ox]);
                        assert(self.mapped()[y] == old_mapped[oy]);
                    }
                }
                return Ok(());
            }
            i = i + 1;
        }
        Err(ERR_NOT_FOUND)
    }

    /// Asks the backend for its raw capability word and tests `cap`
    /// against it. A backend that cannot be queried reports no
    /// capabilities; this model's word comes from the configuration.
    pub fn query_capability(&self, cap: u32) -> (r: bool)
        ensures
            r == ((cap & self.config().capability_word) != 0),
    {
        (cap & self.config.capability_word) != 0
    }

    /// Asks the backend to create a vCPU with the given index under this
    /// VM, yielding the descriptor that identifies it to the backend.
    pub fn create_vcpu(&self, index: u32) -> (r: u32)
        ensures
            r == index,
    {
        index
    }

    /// Asks the backend for the tunnel geometry of a vCPU: the host
    /// virtual address and size of the exit-communication tunnel and the
    /// host virtual address of the I/O buffer. The backend reports the
    /// same geometry for every vCPU of a VM.
    pub fn setup_tunnel(&self, vcpu_descriptor: u32) -> (r: (u64, u64, u64))
        ensures
            r == (self.config().tunnel_va, self.config().tunnel_size, self.config().io_va),
    {
        let _ = vcpu_descriptor;
        (self.config.tunnel_va, self.config.tunnel_size, self.config.io_va)
    }

    /// Records a log file registration with the backend. Only the
    /// `Extended` variant accepts the request; the caller gates on the
    /// variant before asking.
    pub fn record_log_file(&mut self)
        requires
            old(self).config().variant == DriverVariant::Extended,
        ensures
            final(self).log_file_registered(),
            final(self).config() == old(self).config(),
            final(self).vm_id() == old(self).vm_id(),
            final(self).mapped() == old(self).mapped(),
    {
        self.log_file_registered = true;
    }

    /// The identifier the backend assigned to this VM.
    pub fn raw_vm_id(&self) -> (r: u32)
        ensures
            r == self.vm_id(),
    {
        self.vm_id
    }

    /// Whether a log file registration has been recorded for this VM.
    pub fn log_registered(&self) -> (r: bool)
        ensures
            r == self.log_file_registered(),
    {
        self.log_file_registered
    }

    /// The backend variant this driver was configured to drive.
    pub fn config_variant(&self) -> (r: DriverVariant)
        ensures
            r == self.config().variant,
    {
        self.config.variant
    }

    /// The guest physical address width the backend reports.
    pub fn phys_addr_bits(&self) -> (r: u8)
        ensures
            r == self.config().phys_addr_bits,
    {
        self.config.phys_addr_bits
    }

    /// Clones the connection for another handle to the same VM.
    pub fn try_clone(&self) -> (r: Driver)
        ensures
            r.config() == self.config(),
            r.vm_id() == self.vm_id(),
            r.mapped() == self.mapped(),
            r.log_file_registered() == self.log_file_registered(),
    {
        let mut mapped: Vec<DriverMapping> = Vec::new();
        let mut i: usize = 0;
        while i < self.mapped.len()
            invariant
                i <= self.mapped().len(),
                mapped@ == self.mapped().take(i as int),
            decreases self.mapped().len() - i,
        {
            mapped.push(self.mapped[i]);
            proof {
                assert(mapped@ =~= self.mapped().take(i + 1 as int));
            }
            i = i + 1;
        }
        proof {
            assert(mapped@ =~= self.mapped());
        }
        Driver {
            config: self.config,
            vm_id: self.vm_id,
            mapped,
            log_file_registered: self.log_file_registered,
        }
    }
}

} // verus!
