//! Behaviour of the individual components: the static guest layout, the
//! mapping model, the ramoops helpers, the timers and the PCI bus range.

use haxm_vm::address_space::GuestAddressSpace;
use haxm_vm::mapping::MapError;
use haxm_vm::mapping::Mapping;
use haxm_vm::pci::PciBridgeBusRange;
use haxm_vm::pstore::add_ramoops_kernel_cmdline;
use haxm_vm::pstore::create_memory_region;
use haxm_vm::pstore::hex_string;
use haxm_vm::pstore::RamoopsRegion;
use haxm_vm::timer::FakeTimer;
use haxm_vm::timer::Timer;
use haxm_vm::vm::HaxmVm;
use haxm_vm::Error;

fn empty_vm() -> HaxmVm {
    let layout: Vec<(u64, Mapping)> = Vec::new();
    let mem = GuestAddressSpace::new(&layout).expect("failed to create guest memory");
    HaxmVm::new(
        haxm_vm::driver::DriverConfig {
            variant: haxm_vm::driver::DriverVariant::Standard,
            capability_word: 0,
            phys_addr_bits: 36,
            tunnel_va: 0x7f00_0000,
            tunnel_size: 0x4000,
            io_va: 0x7f10_0000,
        },
        mem,
    )
    .expect("failed to create vm")
}

#[test]
fn guest_memory_rejects_overlap() {
    let layout = vec![
        (0u64, Mapping::new(0x1000_0000, 0x2000)),
        (0x1000u64, Mapping::new(0x2000_0000, 0x1000)),
    ];
    assert!(matches!(
        GuestAddressSpace::new(&layout),
        Err(Error::NoSpace)
    ));
}

#[test]
fn guest_memory_rejects_overflow() {
    let layout = vec![(u64::MAX - 0xff, Mapping::new(0x1000_0000, 0x1000))];
    assert!(matches!(
        GuestAddressSpace::new(&layout),
        Err(Error::AddressOverflow)
    ));
}

#[test]
fn guest_memory_overlap_query() {
    let layout = vec![
        (0x1000u64, Mapping::new(0x1000_0000, 0x1000)),
        (0x4000u64, Mapping::new(0x2000_0000, 0x2000)),
    ];
    let mem = GuestAddressSpace::new(&layout).unwrap();
    assert!(mem.range_overlap(0x1800, 0x2000));
    assert!(mem.range_overlap(0x0, 0x1001));
    assert!(!mem.range_overlap(0x2000, 0x4000));
    assert!(!mem.range_overlap(0x6000, 0x7000));
    assert!(!mem.range_overlap(0x1800, 0x1800));
    assert_eq!(mem.num_regions(), 2);
}

#[test]
fn mapping_msync_checks_range() {
    let mapping = Mapping::new(0x1000_0000, 0x2000);
    assert!(mapping.msync(0, 0x2000).is_ok());
    assert!(mapping.msync(0x1000, 0x1000).is_ok());
    assert_eq!(
        mapping.msync(0x1000, 0x1001).err(),
        Some(MapError::InvalidAddress)
    );
    assert_eq!(
        mapping.add_fd_mapping(0, 0x1000).err(),
        Some(MapError::NotSupported)
    );
    assert_eq!(
        mapping.remove_mapping(0, 0x1000).err(),
        Some(MapError::NotSupported)
    );
}

#[test]
fn mapping_from_raw_parts_validates() {
    assert!(Mapping::from_raw_parts(0, 0x1000).is_none());
    assert!(Mapping::from_raw_parts(0x1000, 0).is_none());
    let mapping = Mapping::from_raw_parts(0x1000, 0x2000).unwrap();
    assert_eq!(mapping.host_addr(), 0x1000);
    assert_eq!(mapping.size(), 0x2000);
}

#[test]
fn hex_string_formats() {
    assert_eq!(hex_string(0), "0");
    assert_eq!(hex_string(9), "9");
    assert_eq!(hex_string(0x10), "10");
    assert_eq!(hex_string(0x1000), "1000");
    assert_eq!(hex_string(0xdead_beef), "deadbeef");
    assert_eq!(hex_string(u64::MAX), "ffffffffffffffff");
}

#[test]
fn ramoops_cmdline_params() {
    let region = RamoopsRegion {
        address: 0x4000_0000,
        size: 0x40000,
    };
    let mut cmdline = vec![String::from("console=ttyS0")];
    add_ramoops_kernel_cmdline(&mut cmdline, &region).unwrap();
    assert_eq!(
        cmdline,
        vec![
            String::from("console=ttyS0"),
            String::from("ramoops.mem_address=0x40000000"),
            String::from("ramoops.mem_size=0x40000"),
        ]
    );
}

#[test]
fn ramoops_region_requires_room() {
    let mut vm = empty_vm();
    let backing = Mapping::new(0x9000_0000, 0x40000);
    assert_eq!(
        create_memory_region(&mut vm, 0x4000_0000, 0x2000, 0x40000, backing).err(),
        Some(Error::NoSpace)
    );
    let region =
        create_memory_region(&mut vm, 0x4000_0000, 0x100000, 0x40000, backing).unwrap();
    assert_eq!(region.address, 0x4000_0000);
    assert_eq!(region.size, 0x40000);
}

#[test]
fn timer_arming() {
    let mut timer = Timer::new().unwrap();
    assert!(!timer.armed);
    timer.reset(1_000_000, None).unwrap();
    assert!(timer.armed);
    timer.wait().unwrap();
    assert!(!timer.armed);
    timer.reset(1_000_000, Some(500)).unwrap();
    timer.wait().unwrap();
    assert!(timer.armed);
    timer.clear().unwrap();
    assert!(!timer.armed);
    assert_eq!(Timer::resolution().unwrap(), 1);
}

#[test]
fn fake_timer_advances_clock() {
    let mut timer = FakeTimer::new(0);
    timer.reset(1_000_000, Some(500)).unwrap();
    timer.wait().unwrap();
    assert_eq!(timer.now_ns, 1_000_000);
    assert_eq!(timer.deadline_ns, Some(1_000_500));
    timer.wait().unwrap();
    assert_eq!(timer.now_ns, 1_000_500);
    timer.clear().unwrap();
    assert_eq!(timer.deadline_ns, None);
    assert_eq!(timer.now_ns, 1_000_500);
}

#[test]
fn bus_range_contains() {
    let range = PciBridgeBusRange {
        primary: 0,
        secondary: 1,
        subordinate: 4,
    };
    assert!(range.contains_bus(1));
    assert!(range.contains_bus(4));
    assert!(!range.contains_bus(0));
    assert!(!range.contains_bus(5));
}
