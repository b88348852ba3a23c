//! An owned host memory mapping, described by the two things this layer
//! reads of it: the host virtual address of its first byte and its length
//! in bytes. The platform-specific work of obtaining and releasing the
//! backing pages happens outside this layer; here a mapping is the record
//! that the slot table owns for a registered region and hands back on
//! removal.

use vstd::prelude::*;

verus! {

/// An error from the mapping layer itself, before translation into the
/// monitor's taxonomy.
#[derive(Clone, Copy, Debug, PartialEq, Eq, Structural)]
pub enum MapError {
    /// The requested offset and length do not lie within the mapping.
    InvalidAddress,
    /// The mapping does not support the requested operation.
    NotSupported,
}

/// An owned host mapping: `size` bytes starting at host virtual address
/// `host_addr`.
#[derive(Clone, Copy, Debug, PartialEq, Eq, Structural)]
pub struct Mapping {
    /// Host virtual address of the first byte.
    pub host_addr: u64,
    /// Length in bytes.
    pub size: u64,
}

impl Mapping {
    /// Describes `size` bytes of host memory starting at `host_addr`.
    pub fn new(host_addr: u64, size: u64) -> (r: Mapping)
        ensures
            r.host_addr == host_addr,
            r.size == size,
    {
        Mapping { host_addr, size }
    }

    /// Builds a mapping from an address and length the driver reported,
    /// refusing a null address or an empty length, the only validation the
    /// driver's report receives.
    pub fn from_raw_parts(host_addr: u64, size: u64) -> (r: Option<Mapping>)
        ensures
            host_addr != 0 && size > 0 ==> r == Some(Mapping { host_addr, size }),
            host_addr == 0 || size == 0 ==> r is None,
    {
        if host_addr != 0 && size > 0 {
            Some(Mapping { host_addr, size })
        } else {
            None
        }
    }

    /// The length of the mapping in bytes.
    pub fn size(&self) -> (r: u64)
        ensures
            r == self.size,
    {
        self.size
    }

    /// The host virtual address of the first byte of the mapping.
    pub fn host_addr(&self) -> (r: u64)
        ensures
            r == self.host_addr,
    {
        self.host_addr
    }

    /// Flushes `size` bytes at `offset` within the mapping to their
    /// backing store; fails if the range does not lie within the mapping.
    pub fn msync(&self, offset: usize, size: usize) -> (r: core::result::Result<(), MapError>)
        ensures
            offset + size <= self.size ==> r is Ok,
            offset + size > self.size ==> r == Err::<(), MapError>(MapError::InvalidAddress),
    {
        if size as u64 <= self.size && offset as u64 <= self.size - size as u64 {
            Ok(())
        } else {
            Err(MapError::InvalidAddress)
        }
    }

    /// Maps part of a file descriptor's contents over a range of this
    /// mapping. A plain mapping owns no arena to splice into, so the
    /// operation is refused.
    pub fn add_fd_mapping(&self, offset: usize, size: usize) -> (r: core::result::Result<
        (),
        MapError,
    >)
        ensures
            r == Err::<(), MapError>(MapError::NotSupported),
    {
        let _ = offset;
        let _ = size;
        Err(MapError::NotSupported)
    }

    /// Replaces a range of this mapping with anonymous memory. A plain
    /// mapping owns no arena to splice into, so the operation is refused.
    pub fn remove_mapping(&self, offset: usize, size: usize) -> (r: core::result::Result<
        (),
        MapError,
    >)
        ensures
            r == Err::<(), MapError>(MapError::NotSupported),
    {
        let _ = offset;
        let _ = size;
        Err(MapError::NotSupported)
    }
}

} // verus!
