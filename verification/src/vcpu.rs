//! The vCPU factory: creating a per-vCPU driver handle and mapping the
//! shared run-tunnel and I/O-buffer regions used for synchronous
//! guest-exit communication. Both mappings come from host virtual
//! addresses and sizes the driver reports at setup time, validated no
//! further than a null-address and empty-size check; their backing pages
//! belong to the driver, so dropping a handle releases nothing.

use vstd::prelude::*;

use crate::mapping::Mapping;
use crate::vm::HaxmVm;
use crate::Error;

verus! {

/// The fixed size in bytes of the per-vCPU I/O buffer the driver maps.
pub const HAXM_IO_BUFFER_SIZE: u64 = 4096;

/// A per-vCPU handle: the driver descriptor for the vCPU, its index, and
/// the two mappings used to exchange exit state with the driver. The
/// mappings are valid only for this handle's lifetime.
pub struct VcpuHandle {
    /// The descriptor the driver uses to identify this vCPU.
    pub descriptor: u32,
    /// The index the vCPU was created under.
    pub index: u32,
    /// The fixed-layout exit-communication tunnel.
    pub tunnel: Mapping,
    /// The buffer through which port and memory-mapped I/O data travels.
    pub io_buffer: Mapping,
    /// Fingerprint of the run handle currently bound to the vCPU.
    pub exit_fingerprint: u64,
}

impl HaxmVm {
    /// Creates a vCPU under this VM: asks the driver for a vCPU object,
    /// then for its tunnel geometry, and maps the tunnel and the
    /// fixed-size I/O buffer from the host addresses the driver reports.
    /// A null or empty report fails vCPU creation with `NoSpace` and the
    /// descriptor already obtained is released; nothing of the VM handle
    /// itself changes either way.
    pub fn create_vcpu(&self, index: u32) -> (r: core::result::Result<VcpuHandle, Error>)
        ensures
            ({
                let config = self.driver().config();
                let usable = config.tunnel_va != 0 && config.tunnel_size > 0 && config.io_va != 0;
                match r {
                    Ok(vcpu) => {
                        &&& usable
                        &&& vcpu.descriptor == index
                        &&& vcpu.index == index
                        &&& vcpu.tunnel == (Mapping {
                            host_addr: config.tunnel_va,
                            size: config.tunnel_size,
                        })
                        &&& vcpu.io_buffer == (Mapping {
                            host_addr: config.io_va,
                            size: HAXM_IO_BUFFER_SIZE,
                        })
                        &&& vcpu.exit_fingerprint == 0
                    },
                    Err(e) => !usable && e == Error::NoSpace,
                }
            }),
    {
        let descriptor = self.driver_ref().create_vcpu(index);
        let (tunnel_va, tunnel_size, io_va) = self.driver_ref().setup_tunnel(descriptor);
        let tunnel = match Mapping::from_raw_parts(tunnel_va, tunnel_size) {
            Some(tunnel) => tunnel,
            None => {
                return Err(Error::NoSpace);
            },
        };
        let io_buffer = match Mapping::from_raw_parts(io_va, HAXM_IO_BUFFER_SIZE) {
            Some(io_buffer) => io_buffer,
            None => {
                return Err(Error::NoSpace);
            },
        };
        Ok(VcpuHandle { descriptor, index, tunnel, io_buffer, exit_fingerprint: 0 })
    }
}

} // verus!
