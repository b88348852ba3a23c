//! Persistent crash-log ("ramoops") region setup: carving a guest-memory
//! region out of a reserved address range for the pstore backing file,
//! and rendering the kernel command-line parameters that tell the guest
//! where that region lies. Opening and mapping the backing file is
//! platform work done outside this layer, which receives the finished
//! mapping.

use vstd::prelude::*;

use crate::mapping::Mapping;
use crate::slots::MemoryRegion;
use crate::vm::HaxmVm;
use crate::Error;
use crate::GuestAddress;

verus! {

/// A guest memory region reserved for the ramoops crash log.
pub struct RamoopsRegion {
    /// Guest physical address of the first byte.
    pub address: u64,
    /// Length in bytes.
    pub size: u32,
}

/// The lower-case hexadecimal digit for a value below sixteen.
pub open spec fn hex_char(d: nat) -> char {
    if d == 0 {
        '0'
    } else if d == 1 {
        '1'
    } else if d == 2 {
        '2'
    } else if d == 3 {
        '3'
    } else if d == 4 {
        '4'
    } else if d == 5 {
        '5'
    } else if d == 6 {
        '6'
    } else if d == 7 {
        '7'
    } else if d == 8 {
        '8'
    } else if d == 9 {
        '9'
    } else if d == 10 {
        'a'
    } else if d == 11 {
        'b'
    } else if d == 12 {
        'c'
    } else if d == 13 {
        'd'
    } else if d == 14 {
        'e'
    } else {
        'f'
    }
}

/// The lower-case hexadecimal rendering of `n`, without a radix prefix
/// and without leading zeroes (a single zero for zero itself).
pub open spec fn hex_seq(n: nat) -> Seq<char>
    decreases n,
{
    if n < 16 {
        seq![hex_char(n)]
    } else {
        hex_seq(n / 16).push(hex_char(n % 16))
    }
}

/// The one-character string for a hexadecimal digit.
fn hex_digit_str(d: u8) -> (r: &'static str)
    requires
        d < 16,
    ensures
        r@ == seq![hex_char(d as nat)],
{
    proof {
        reveal_strlit("0");
        reveal_strlit("1");
        reveal_strlit("2");
        reveal_strlit("3");
        reveal_strlit("4");
        reveal_strlit("5");
        reveal_strlit("6");
        reveal_strlit("7");
        reveal_strlit("8");
        reveal_strlit("9");
        reveal_strlit("a");
        reveal_strlit("b");
        reveal_strlit("c");
        reveal_strlit("d");
        reveal_strlit("e");
        reveal_strlit("f");
    }
    match d {
        0 => "0",
        1 => "1",
        2 => "2",
        3 => "3",
        4 => "4",
        5 => "5",
        6 => "6",
        7 => "7",
        8 => "8",
        9 => "9",
        10 => "a",
        11 => "b",
        12 => "c",
        13 => "d",
        14 => "e",
        _ => "f",
    }
}

/// Renders `val` in lower-case hexadecimal, most significant digit
/// first, without a radix prefix.
pub fn hex_string(val: u64) -> (r: String)
    ensures
        r@ == hex_seq(val as nat),
    decreases val,
{
    if val < 16 {
        String::from_str(hex_digit_str(val as u8))
    } else {
        let mut s = hex_string(val / 16);
        s.append(hex_digit_str((val % 16) as u8));
        proof {
            assert(s@ =~= hex_seq(val as nat));
        }
        s
    }
}

/// Registers a guest memory region for the ramoops crash log: the
/// reserved range must have room for the pstore allocation, and the
/// prepared backing mapping is added to the VM at the start of the
/// range. On success the caller learns where the ramoops region lies.
pub fn create_memory_region(
    vm: &mut HaxmVm,
    region_start: u64,
    region_size: u64,
    pstore_size: u32,
    backing: Mapping,
) -> (r: core::result::Result<RamoopsRegion, Error>)
    requires
        old(vm).wf(),
        old(vm).slots().bound() <= u32::MAX,
    ensures
        final(vm).wf(),
        final(vm).guest_mem() == old(vm).guest_mem(),
        final(vm).ioevents() == old(vm).ioevents(),
        match r {
            Ok(region) => {
                &&& region_size >= pstore_size
                &&& old(vm).add_outcome(region_start as int, backing.size as int) is Ok
                &&& region.address == region_start
                &&& region.size == pstore_size
                &&& final(vm).slots().regions() == old(vm).slots().regions().insert(
                    (old(vm).slots().next_slot() as u32),
                    MemoryRegion { guest_addr: region_start, mapping: backing },
                )
            },
            Err(e) => {
                &&& (region_size < pstore_size ==> e == Error::NoSpace && *final(vm) == *old(vm))
                &&& (region_size >= pstore_size ==> Err::<(), Error>(e) == old(vm).add_outcome(
                    region_start as int,
                    backing.size as int,
                ))
                &&& final(vm).slots().regions() == old(vm).slots().regions()
                &&& final(vm).driver().mapped() == old(vm).driver().mapped()
            },
        },
{
    if region_size < pstore_size as u64 {
        return Err(Error::NoSpace);
    }
    match vm.add_memory_region(GuestAddress(region_start), backing, false, false) {
        Ok(_) => Ok(RamoopsRegion { address: region_start, size: pstore_size }),
        Err(e) => Err(e),
    }
}

/// Appends the two kernel command-line parameters that hand the guest
/// the ramoops region: its address and its size, each rendered as a
/// `0x`-prefixed lower-case hexadecimal value.
pub fn add_ramoops_kernel_cmdline(cmdline: &mut Vec<String>, ramoops_region: &RamoopsRegion) -> (r:
    core::result::Result<(), Error>)
    ensures
        r == Ok::<(), Error>(()),
        final(cmdline)@.len() == old(cmdline)@.len() + 2,
        forall|k: int|
            0 <= k < old(cmdline)@.len() ==> #[trigger] final(cmdline)@[k] == old(cmdline)@[k],
        final(cmdline)@[old(cmdline)@.len() as int]@ == "ramoops.mem_address=0x"@ + hex_seq(
            ramoops_region.address as nat,
        ),
        final(cmdline)@[old(cmdline)@.len() + 1 as int]@ == "ramoops.mem_size=0x"@ + hex_seq(
            ramoops_region.size as nat,
        ),
{
    let mut address_param = String::from_str("ramoops.mem_address=0x");
    address_param.append(hex_string(ramoops_region.address).as_str());
    cmdline.push(address_param);
    let mut size_param = String::from_str("ramoops.mem_size=0x");
    size_param.append(hex_string(ramoops_region.size as u64).as_str());
    cmdline.push(size_param);
    Ok(())
}

} // verus!
