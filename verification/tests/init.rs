use wasabi::acpi::{
    AcpiRsdp, AcpiTableBody, AcpiTableRecord, GenericAddress, SystemDescriptionTableHeader, Xsdt,
};
use wasabi::allocator::{FirstFitAllocator, MemoryRegion, MemoryRegionKind};
use wasabi::hpet::{global_timestamp, Hpet, HpetRegisters, TimerRegister};
use wasabi::init::{end_of_memory, init_allocator, init_basic_runtime, init_hpet};
use wasabi::mutex::Mutex;

fn region(start: u64, pages: u64, kind: MemoryRegionKind) -> MemoryRegion {
    MemoryRegion { physical_start: start, number_of_pages: pages, kind }
}

#[test]
fn init_basic_runtime_seeds_the_allocator() {
    let mut allocator = FirstFitAllocator::new();
    let map = vec![
        region(0x10_0000, 256, MemoryRegionKind::UsableRam),
        region(0x8000_0000, 16, MemoryRegionKind::Reserved),
    ];
    init_basic_runtime(&mut allocator, &map);
    let a = allocator.alloc_with_options(128, 8).expect("allocation failed");
    assert!(a != 0);
    assert!(a % 8 == 0);
    // the reserved region contributes nothing: everything comes from the
    // usable megabyte
    assert!(0x10_0000 < a && a < 0x20_0000);
}

#[test]
fn init_allocator_counts_usable_pages() {
    let map = vec![
        region(0x10_0000, 256, MemoryRegionKind::UsableRam),
        region(0x8000_0000, 100, MemoryRegionKind::Reserved),
        region(0x20_0000, 4, MemoryRegionKind::UsableRam),
    ];
    assert_eq!(init_allocator(&map), 260);
    let empty: Vec<MemoryRegion> = vec![];
    assert_eq!(init_allocator(&empty), 0);
}

#[test]
fn end_of_memory_covers_at_least_four_gib() {
    // everything below 4 GiB is mapped regardless of the map
    let low = vec![region(0x10_0000, 256, MemoryRegionKind::UsableRam)];
    assert_eq!(end_of_memory(&low), 0x1_0000_0000);
    // conventional and loader regions extend the mapping; reserved ones do not
    let map = vec![
        region(0x10_0000, 256, MemoryRegionKind::UsableRam),
        region(0x2_0000_0000, 1, MemoryRegionKind::LoaderData),
        region(0x40_0000_0000, 1, MemoryRegionKind::Reserved),
    ];
    assert_eq!(end_of_memory(&map), 0x2_0000_1000);
}

#[test]
fn init_hpet_installs_the_timer() {
    let xsdt = Xsdt {
        header: SystemDescriptionTableHeader { signature: *b"XSDT", length: 36 + 8 },
        entries: vec![
            AcpiTableRecord {
                header: SystemDescriptionTableHeader { signature: *b"HPET", length: 56 },
                body: AcpiTableBody::Hpet(GenericAddress {
                    address_space_id: 0,
                    address: 0xFED0_0000,
                }),
            },
        ],
    };
    let rsdp = AcpiRsdp {
        signature: *b"RSD PTR ",
        checksum: 0,
        oem_id: *b"WASABI",
        revision: 2,
        rsdt_address: 0,
        length: 36,
        xsdt_address: 0x7FFE_0000,
    };
    let registers = HpetRegisters {
        capabilites_and_id: (1_000_000u64 << 32) | (2 << 8),
        configuration: 0,
        main_counter_value: 3,
        timers: vec![TimerRegister { configuration_and_capabilities: 0 }; 32],
    };
    let mut slot: Mutex<Option<Hpet>> = Mutex::new(None, 1);
    init_hpet(&mut slot, &rsdp, &xsdt, registers);
    // a timer is installed, configured, and its counter starts at zero
    assert_eq!(global_timestamp(&mut slot), 0);
    slot.lock(2);
    let hpet = slot.borrow_data().as_ref().expect("no timer installed");
    assert_eq!(hpet.freq(), 1_000_000_000);
    assert_eq!(hpet.main_counter(), 0);
    slot.unlock();
}
