//! Guest-memory and io-event management for a hardware-virtualization
//! backend: slot bookkeeping for registered guest memory regions, doorbell
//! event dispatch, and the virtual-machine facade that mirrors every
//! in-process mutation into the backend driver before committing it.

use vstd::prelude::*;

pub mod address_space;
pub mod driver;
pub mod ioevents;
pub mod mapping;
pub mod pci;
pub mod pstore;
pub mod slots;
pub mod timer;
pub mod vcpu;
pub mod vm;

verus! {

/// Integer handle identifying a registered guest memory region to the
/// underlying driver.
pub type MemSlot = u32;

/// An address in the guest's emulated physical address space.
#[derive(Clone, Copy, Debug, PartialEq, Eq, Structural)]
pub struct GuestAddress(pub u64);

/// A port or memory-mapped address at which a doorbell write can be
/// observed.
#[derive(Clone, Copy, Debug, PartialEq, Eq, Structural)]
pub enum IoEventAddress {
    /// A port I/O address.
    Pio(u64),
    /// A memory-mapped I/O address.
    Mmio(u64),
}

/// The policy by which an io-event decides whether a given write value
/// should trigger the bound event. This backend honours only `AnyLength`.
#[derive(Clone, Copy, Debug, PartialEq, Eq)]
pub enum Datamatch {
    /// Any write to the address triggers, whatever its length or value.
    AnyLength,
    /// Trigger only for a one-byte write, optionally of the given value.
    U8(Option<u8>),
    /// Trigger only for a two-byte write, optionally of the given value.
    U16(Option<u16>),
    /// Trigger only for a four-byte write, optionally of the given value.
    U32(Option<u32>),
    /// Trigger only for an eight-byte write, optionally of the given value.
    U64(Option<u64>),
}

/// Optional capabilities a virtual machine backend may offer. This backend
/// reports all of them as unavailable rather than attempting and failing
/// late.
#[derive(Clone, Copy, Debug, PartialEq, Eq)]
pub enum VmCap {
    /// Dirty-page logging.
    DirtyLog,
    /// Paravirtual clock.
    PvClock,
    /// Memory ballooning.
    Balloon,
}

/// Kinds of in-kernel device the monitor may ask a backend to emulate.
#[derive(Clone, Copy, Debug, PartialEq, Eq)]
pub enum DeviceKind {
    /// A virtio-over-PCI transport device.
    Vfio,
    /// An ARM virtual generic interrupt controller.
    ArmVgic,
}

/// The monitor's error taxonomy for this layer.
#[derive(Clone, Copy, Debug, PartialEq, Eq, Structural)]
pub enum Error {
    /// A guest range's end address does not fit in the address width.
    AddressOverflow,
    /// The candidate range overlaps memory already present, or the driver
    /// rejected the mapping.
    NoSpace,
    /// The slot or io-event address is not currently registered.
    NotFound,
    /// The io-event address already has an event bound.
    AlreadyRegistered,
    /// The supplied event is not the one currently bound at the address.
    Mismatch,
    /// A capability or datamatch discipline this backend cannot honour.
    Unsupported,
    /// Opaque passthrough of a platform error code from the driver or the
    /// mapping layer.
    DriverError(u32),
}

/// Whether the half-open guest ranges `[a, a + sa)` and `[b, b + sb)`
/// intersect. Empty ranges intersect nothing.
pub open spec fn ranges_overlap(a: int, sa: int, b: int, sb: int) -> bool {
    sa > 0 && sb > 0 && a < b + sb && b < a + sa
}

} // verus!
