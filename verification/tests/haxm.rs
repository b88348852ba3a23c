//! Behaviour of the virtual machine handle: memory slots, io-events,
//! capabilities and vCPU creation.

use haxm_vm::address_space::GuestAddressSpace;
use haxm_vm::driver::DriverConfig;
use haxm_vm::driver::DriverVariant;
use haxm_vm::ioevents::Event;
use haxm_vm::mapping::Mapping;
use haxm_vm::vcpu::HAXM_IO_BUFFER_SIZE;
use haxm_vm::vm::HaxmVm;
use haxm_vm::Datamatch;
use haxm_vm::Error;
use haxm_vm::GuestAddress;
use haxm_vm::IoEventAddress;
use haxm_vm::VmCap;

fn test_config() -> DriverConfig {
    DriverConfig {
        variant: DriverVariant::Standard,
        capability_word: 0,
        phys_addr_bits: 36,
        tunnel_va: 0x7f00_0000,
        tunnel_size: 0x4000,
        io_va: 0x7f10_0000,
    }
}

fn guest_memory(layout: &[(u64, u64)]) -> GuestAddressSpace {
    let mut pairs = Vec::new();
    let mut host = 0x1000_0000u64;
    for &(addr, size) in layout {
        pairs.push((addr, Mapping::new(host, size)));
        host += size;
    }
    GuestAddressSpace::new(&pairs).expect("failed to create guest memory")
}

#[test]
fn create_vm() {
    let mem = guest_memory(&[(0, 0x1000)]);
    HaxmVm::new(test_config(), mem).expect("failed to create vm");
}

#[test]
fn create_vcpu() {
    let mem = guest_memory(&[(0, 0x1000)]);
    let vm = HaxmVm::new(test_config(), mem).expect("failed to create vm");
    let vcpu = vm.create_vcpu(0).expect("failed to create vcpu");
    assert_eq!(vcpu.index, 0);
    assert_eq!(vcpu.tunnel.host_addr, 0x7f00_0000);
    assert_eq!(vcpu.tunnel.size, 0x4000);
    assert_eq!(vcpu.io_buffer.host_addr, 0x7f10_0000);
    assert_eq!(vcpu.io_buffer.size, HAXM_IO_BUFFER_SIZE);
}

#[test]
fn create_vcpu_rejects_null_tunnel() {
    let mut config = test_config();
    config.tunnel_va = 0;
    let mem = guest_memory(&[(0, 0x1000)]);
    let vm = HaxmVm::new(config, mem).expect("failed to create vm");
    assert_eq!(vm.create_vcpu(0).err(), Some(Error::NoSpace));
}

#[test]
fn register_ioevent() {
    let mem = guest_memory(&[(0, 0x10000)]);
    let mut vm = HaxmVm::new(test_config(), mem).expect("failed to create vm");
    let evt = Event::new(1);
    let otherevt = Event::new(2);
    vm.register_ioevent(&evt, IoEventAddress::Pio(0xf4), Datamatch::AnyLength)
        .unwrap();
    vm.register_ioevent(&evt, IoEventAddress::Mmio(0x1000), Datamatch::AnyLength)
        .unwrap();

    vm.register_ioevent(&otherevt, IoEventAddress::Mmio(0x1000), Datamatch::AnyLength)
        .expect_err("the backend should not allow two events for the same address");

    vm.register_ioevent(&otherevt, IoEventAddress::Mmio(0x1000), Datamatch::U8(None))
        .expect_err("the backend should not allow datamatches other than AnyLength");

    vm.register_ioevent(
        &otherevt,
        IoEventAddress::Mmio(0x1000),
        Datamatch::U32(Some(0xf6)),
    )
    .expect_err("the backend should not allow datamatches other than AnyLength");

    vm.unregister_ioevent(&otherevt, IoEventAddress::Pio(0xf4), Datamatch::AnyLength)
        .expect_err("unregistering an unknown event should fail");
    vm.unregister_ioevent(&evt, IoEventAddress::Pio(0xf5), Datamatch::AnyLength)
        .expect_err("unregistering an unknown PIO address should fail");
    vm.unregister_ioevent(&evt, IoEventAddress::Pio(0x1000), Datamatch::AnyLength)
        .expect_err("unregistering an unknown PIO address should fail");
    vm.unregister_ioevent(&evt, IoEventAddress::Mmio(0xf4), Datamatch::AnyLength)
        .expect_err("unregistering an unknown MMIO address should fail");
    vm.unregister_ioevent(&evt, IoEventAddress::Pio(0xf4), Datamatch::AnyLength)
        .unwrap();
    vm.unregister_ioevent(&evt, IoEventAddress::Mmio(0x1000), Datamatch::AnyLength)
        .unwrap();
}

#[test]
fn register_ioevent_errors() {
    let mem = guest_memory(&[(0, 0x10000)]);
    let mut vm = HaxmVm::new(test_config(), mem).expect("failed to create vm");
    let evt = Event::new(1);
    let otherevt = Event::new(2);
    let addr = IoEventAddress::Pio(0xf4);
    vm.register_ioevent(&evt, addr, Datamatch::AnyLength).unwrap();
    assert_eq!(
        vm.register_ioevent(&otherevt, addr, Datamatch::AnyLength).err(),
        Some(Error::AlreadyRegistered)
    );
    assert_eq!(
        vm.unregister_ioevent(&otherevt, addr, Datamatch::AnyLength).err(),
        Some(Error::Mismatch)
    );
    assert_eq!(
        vm.unregister_ioevent(&evt, IoEventAddress::Pio(0xf5), Datamatch::AnyLength)
            .err(),
        Some(Error::NotFound)
    );
    // The original binding survives both refusals.
    assert_eq!(vm.ioevent_count(addr), Some(0));
    vm.unregister_ioevent(&evt, addr, Datamatch::AnyLength).unwrap();
}

#[test]
fn register_ioevent_unsupported_datamatch() {
    let mem = guest_memory(&[(0, 0x10000)]);
    let mut vm = HaxmVm::new(test_config(), mem).expect("failed to create vm");
    let evt = Event::new(1);
    let addr = IoEventAddress::Mmio(0x1000);
    // Unsupported whatever the address state: unbound first, then bound.
    assert_eq!(
        vm.register_ioevent(&evt, addr, Datamatch::U16(Some(7))).err(),
        Some(Error::Unsupported)
    );
    vm.register_ioevent(&evt, addr, Datamatch::AnyLength).unwrap();
    assert_eq!(
        vm.register_ioevent(&evt, addr, Datamatch::U64(None)).err(),
        Some(Error::Unsupported)
    );
    assert_eq!(
        vm.unregister_ioevent(&evt, addr, Datamatch::U8(None)).err(),
        Some(Error::Unsupported)
    );
}

#[test]
fn handle_io_events() {
    let mem = guest_memory(&[(0, 0x10000)]);
    let mut vm = HaxmVm::new(test_config(), mem).expect("failed to create vm");
    let evt = Event::new(1);
    let evt2 = Event::new(2);
    vm.register_ioevent(&evt, IoEventAddress::Pio(0x1000), Datamatch::AnyLength)
        .unwrap();
    vm.register_ioevent(&evt2, IoEventAddress::Mmio(0x1000), Datamatch::AnyLength)
        .unwrap();

    // Check a pio address
    vm.handle_io_events(IoEventAddress::Pio(0x1000), &[])
        .expect("failed to handle_io_events");
    assert_eq!(vm.ioevent_count(IoEventAddress::Pio(0x1000)), Some(1));
    assert_eq!(vm.ioevent_count(IoEventAddress::Mmio(0x1000)), Some(0));
    // Check an mmio address
    vm.handle_io_events(IoEventAddress::Mmio(0x1000), &[])
        .expect("failed to handle_io_events");
    assert_eq!(vm.ioevent_count(IoEventAddress::Pio(0x1000)), Some(1));
    assert_eq!(vm.ioevent_count(IoEventAddress::Mmio(0x1000)), Some(1));

    // Check an address that does not match any registered ioevents
    vm.handle_io_events(IoEventAddress::Pio(0x1001), &[])
        .expect("failed to handle_io_events");
    assert_eq!(vm.ioevent_count(IoEventAddress::Pio(0x1000)), Some(1));
    assert_eq!(vm.ioevent_count(IoEventAddress::Mmio(0x1000)), Some(1));
    assert_eq!(vm.ioevent_count(IoEventAddress::Pio(0x1001)), None);
}

#[test]
fn handle_io_events_after_unregister() {
    let mem = guest_memory(&[(0, 0x10000)]);
    let mut vm = HaxmVm::new(test_config(), mem).expect("failed to create vm");
    let evt = Event::new(1);
    let port = IoEventAddress::Pio(0xf4);
    vm.register_ioevent(&evt, port, Datamatch::AnyLength).unwrap();
    vm.handle_io_events(port, &[]).unwrap();
    assert_eq!(vm.ioevent_count(port), Some(1));
    vm.handle_io_events(IoEventAddress::Pio(0xf5), &[]).unwrap();
    assert_eq!(vm.ioevent_count(port), Some(1));
    vm.unregister_ioevent(&evt, port, Datamatch::AnyLength).unwrap();
    vm.handle_io_events(port, &[]).unwrap();
    assert_eq!(vm.ioevent_count(port), None);
}

#[test]
fn remove_memory() {
    let mem = guest_memory(&[(0, 0x1000)]);
    let mut vm = HaxmVm::new(test_config(), mem).expect("failed to create vm");
    let mem_size = 0x1000;
    let mapping = Mapping::new(0x8000_0000, mem_size);
    let mem_ptr = mapping.host_addr;
    let slot = vm
        .add_memory_region(GuestAddress(0x1000), mapping, false, false)
        .unwrap();
    let removed_mem = vm.remove_memory_region(slot).unwrap();
    assert_eq!(removed_mem.size, mem_size);
    assert_eq!(removed_mem.host_addr, mem_ptr);
}

#[test]
fn remove_memory_unknown_slot() {
    let mem = guest_memory(&[(0, 0x1000)]);
    let mut vm = HaxmVm::new(test_config(), mem).expect("failed to create vm");
    assert_eq!(vm.remove_memory_region(7).err(), Some(Error::NotFound));
}

#[test]
fn add_memory_rejects_overflow() {
    let mem = guest_memory(&[(0, 0x1000)]);
    let mut vm = HaxmVm::new(test_config(), mem).expect("failed to create vm");
    let mapping = Mapping::new(0x8000_0000, 0x1000);
    assert_eq!(
        vm.add_memory_region(GuestAddress(u64::MAX - 0xff), mapping, false, false)
            .err(),
        Some(Error::AddressOverflow)
    );
}

#[test]
fn add_memory_rejects_static_overlap() {
    let mem = guest_memory(&[(0x2000, 0x2000)]);
    let mut vm = HaxmVm::new(test_config(), mem).expect("failed to create vm");
    let mapping = Mapping::new(0x8000_0000, 0x1000);
    assert_eq!(
        vm.add_memory_region(GuestAddress(0x3800), mapping, false, false)
            .err(),
        Some(Error::NoSpace)
    );
}

#[test]
fn slot_reuse_prefers_gaps() {
    // A VM with no static memory numbers its first dynamic slot 0.
    let mem = guest_memory(&[]);
    let mut vm = HaxmVm::new(test_config(), mem).expect("failed to create vm");
    let first = vm
        .add_memory_region(GuestAddress(0x1000), Mapping::new(0x8000_0000, 0x1000), false, false)
        .unwrap();
    assert_eq!(first, 0);

    // A second region at the same guest address is refused by the driver.
    assert_eq!(
        vm.add_memory_region(GuestAddress(0x1000), Mapping::new(0x8010_0000, 0x1000), false, false)
            .err(),
        Some(Error::NoSpace)
    );

    // After removing the first slot the same addition succeeds and
    // reuses slot 0.
    vm.remove_memory_region(first).unwrap();
    let again = vm
        .add_memory_region(GuestAddress(0x1000), Mapping::new(0x8010_0000, 0x1000), false, false)
        .unwrap();
    assert_eq!(again, 0);
}

#[test]
fn slot_reuse_takes_lowest_gap() {
    let mem = guest_memory(&[(0, 0x1000)]);
    let mut vm = HaxmVm::new(test_config(), mem).expect("failed to create vm");
    let s1 = vm
        .add_memory_region(GuestAddress(0x10000), Mapping::new(0x8000_0000, 0x1000), false, false)
        .unwrap();
    let s2 = vm
        .add_memory_region(GuestAddress(0x20000), Mapping::new(0x8010_0000, 0x1000), false, false)
        .unwrap();
    let s3 = vm
        .add_memory_region(GuestAddress(0x30000), Mapping::new(0x8020_0000, 0x1000), false, false)
        .unwrap();
    assert_eq!((s1, s2, s3), (1, 2, 3));
    vm.remove_memory_region(s3).unwrap();
    vm.remove_memory_region(s1).unwrap();
    // The least reclaimed slot comes back first, before any growth.
    let reused = vm
        .add_memory_region(GuestAddress(0x40000), Mapping::new(0x8030_0000, 0x1000), false, false)
        .unwrap();
    assert_eq!(reused, s1);
    let reused = vm
        .add_memory_region(GuestAddress(0x50000), Mapping::new(0x8040_0000, 0x1000), false, false)
        .unwrap();
    assert_eq!(reused, s3);
    let fresh = vm
        .add_memory_region(GuestAddress(0x60000), Mapping::new(0x8050_0000, 0x1000), false, false)
        .unwrap();
    assert_eq!(fresh, 4);
}

#[test]
fn msync_memory_region_bounds() {
    let mem = guest_memory(&[(0, 0x1000)]);
    let mut vm = HaxmVm::new(test_config(), mem).expect("failed to create vm");
    let slot = vm
        .add_memory_region(GuestAddress(0x1000), Mapping::new(0x8000_0000, 0x1000), false, false)
        .unwrap();
    vm.msync_memory_region(slot, 0, 0x1000).unwrap();
    vm.msync_memory_region(slot, 0x800, 0x800).unwrap();
    assert_eq!(
        vm.msync_memory_region(slot, 0x800, 0x1000).err(),
        Some(Error::DriverError(14))
    );
    assert_eq!(
        vm.msync_memory_region(slot + 1, 0, 0x10).err(),
        Some(Error::NotFound)
    );
}

#[test]
fn fd_mappings_are_refused() {
    let mem = guest_memory(&[(0, 0x1000)]);
    let mut vm = HaxmVm::new(test_config(), mem).expect("failed to create vm");
    let slot = vm
        .add_memory_region(GuestAddress(0x1000), Mapping::new(0x8000_0000, 0x1000), false, false)
        .unwrap();
    assert_eq!(
        vm.add_fd_mapping(slot, 0, 0x1000, 0, true).err(),
        Some(Error::DriverError(5))
    );
    assert_eq!(
        vm.add_fd_mapping(slot + 1, 0, 0x1000, 0, true).err(),
        Some(Error::NotFound)
    );
    assert_eq!(
        vm.remove_mapping(slot, 0, 0x1000).err(),
        Some(Error::DriverError(5))
    );
    assert_eq!(
        vm.remove_mapping(slot + 1, 0, 0x1000).err(),
        Some(Error::NotFound)
    );
}

#[test]
fn capabilities_are_unsupported() {
    let mem = guest_memory(&[(0, 0x1000)]);
    let vm = HaxmVm::new(test_config(), mem).expect("failed to create vm");
    assert!(!vm.check_capability(VmCap::DirtyLog));
    assert!(!vm.check_capability(VmCap::PvClock));
    assert!(!vm.check_capability(VmCap::Balloon));
    assert_eq!(vm.get_pvclock().err(), Some(Error::Unsupported));
    assert_eq!(vm.set_pvclock(0).err(), Some(Error::Unsupported));
    let mut scratch = Vec::new();
    assert_eq!(
        vm.get_dirty_log(0, &mut scratch).err(),
        Some(Error::Unsupported)
    );
}

#[test]
fn check_raw_capability_masks_word() {
    let mut config = test_config();
    config.capability_word = 0b101;
    let mem = guest_memory(&[(0, 0x1000)]);
    let vm = HaxmVm::new(config, mem).expect("failed to create vm");
    assert!(vm.check_raw_capability(0b001));
    assert!(vm.check_raw_capability(0b100));
    assert!(!vm.check_raw_capability(0b010));
}

#[test]
fn balloon_requests_are_noops() {
    let mem = guest_memory(&[(0, 0x1000)]);
    let mut vm = HaxmVm::new(test_config(), mem).expect("failed to create vm");
    vm.handle_deflate(GuestAddress(0x1000), 0x1000).unwrap();
    vm.handle_inflate(GuestAddress(0x1000), 0x1000).unwrap();
}

#[test]
fn register_log_file() {
    let mut config = test_config();
    config.variant = DriverVariant::Extended;
    let mem = guest_memory(&[(0, 0x1000)]);
    let mut vm = HaxmVm::new(config, mem).expect("failed to create vm");
    assert!(!vm.log_file_registered());
    vm.register_log_file("test").expect("failed to register log file");
    assert!(vm.log_file_registered());
}

#[test]
fn register_log_file_path_too_long() {
    let mut config = test_config();
    config.variant = DriverVariant::Extended;
    let mem = guest_memory(&[(0, 0x1000)]);
    let mut vm = HaxmVm::new(config, mem).expect("failed to create vm");
    let long: String = std::iter::repeat('a').take(256).collect();
    assert_eq!(
        vm.register_log_file(&long).err(),
        Some(Error::DriverError(7))
    );
    assert!(!vm.log_file_registered());
}

#[test]
fn register_log_file_counts_bytes() {
    let mut config = test_config();
    config.variant = DriverVariant::Extended;
    let mem = guest_memory(&[(0, 0x1000)]);
    let mut vm = HaxmVm::new(config, mem).expect("failed to create vm");
    // 128 two-byte characters occupy 256 bytes: too long for the
    // backend's fixed-size record, though only 128 characters.
    let wide: String = std::iter::repeat('\u{00e9}').take(128).collect();
    assert_eq!(wide.len(), 256);
    assert_eq!(
        vm.register_log_file(&wide).err(),
        Some(Error::DriverError(7))
    );
    assert!(!vm.log_file_registered());
}

#[test]
fn register_log_file_stock_variant_is_noop() {
    let mem = guest_memory(&[(0, 0x1000)]);
    let mut vm = HaxmVm::new(test_config(), mem).expect("failed to create vm");
    vm.register_log_file("test").unwrap();
    assert!(!vm.log_file_registered());
}

#[test]
fn try_clone_copies_state() {
    let mem = guest_memory(&[(0, 0x1000)]);
    let mut vm = HaxmVm::new(test_config(), mem).expect("failed to create vm");
    let evt = Event::new(1);
    let port = IoEventAddress::Pio(0xf4);
    vm.register_ioevent(&evt, port, Datamatch::AnyLength).unwrap();
    let slot = vm
        .add_memory_region(GuestAddress(0x1000), Mapping::new(0x8000_0000, 0x1000), false, false)
        .unwrap();
    let mut clone = vm.try_clone().expect("failed to clone vm");
    assert_eq!(clone.ioevent_count(port), Some(0));
    let removed = clone.remove_memory_region(slot).unwrap();
    assert_eq!(removed.host_addr, 0x8000_0000);
    // The original handle's own bindings are unaffected by the clone.
    assert_eq!(vm.ioevent_count(port), Some(0));
}

#[test]
fn tss_and_identity_map_are_accepted() {
    let mem = guest_memory(&[(0, 0x1000)]);
    let vm = HaxmVm::new(test_config(), mem).expect("failed to create vm");
    vm.set_tss_addr(GuestAddress(0xfffb_d000)).unwrap();
    vm.set_identity_map_addr(GuestAddress(0xfeff_c000)).unwrap();
    assert_eq!(vm.get_guest_phys_addr_bits(), 36);
    assert_eq!(vm.create_device(haxm_vm::DeviceKind::Vfio).err(), Some(Error::Unsupported));
}
