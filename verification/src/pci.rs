//! The slice of PCI bridge topology this layer is concerned with: the
//! bus numbers a bridge spans. The bridge's configuration-space
//! emulation itself is an external collaborator and lives outside this
//! layer.

use vstd::prelude::*;

verus! {

/// The bus range of a PCI bridge.
#[derive(Clone, Copy, Debug, PartialEq, Eq, Structural)]
pub struct PciBridgeBusRange {
    /// The bus the bridge's primary side faces.
    pub primary: u8,
    /// The bus directly behind the bridge.
    pub secondary: u8,
    /// The highest bus reachable behind the bridge.
    pub subordinate: u8,
}

impl PciBridgeBusRange {
    /// A bus range is ordered: the secondary bus lies at or above the
    /// primary, and the subordinate at or above the secondary.
    pub open spec fn wf(self) -> bool {
        self.primary <= self.secondary <= self.subordinate
    }

    /// Whether `bus` lies behind this bridge.
    pub fn contains_bus(&self, bus: u8) -> (r: bool)
        ensures
            r == (self.secondary <= bus <= self.subordinate),
    {
        self.secondary <= bus && bus <= self.subordinate
    }
}

} // verus!
