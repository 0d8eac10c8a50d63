use hadron_kernel::arch::{PhysAddr, VirtAddr};
use hadron_kernel::dev::pci::pcie::{
    bar_address, capability_header, function_absent, function_address, function_count, get_bus_base, parse_bus,
    DeviceClass, FunctionHeader, PCICapabilities, PCIEFunctionOffset, PCIeBus, PCIeConfigSpace, PCIeFunction,
    BUS_SIZE, DEVICE_SIZE,
};

fn absent() -> FunctionHeader {
    FunctionHeader { vendor_id: 0xFFFF, device_id: 0xFFFF, revision: 0xFF, class: 0xFF, header_type: 0xFF, bars: [0xFFFF_FFFF; 6] }
}

fn present(vendor_id: u16, device_id: u16, class: u8, header_type: u8) -> FunctionHeader {
    FunctionHeader { vendor_id, device_id, revision: 2, class, header_type, bars: [0xFD00_0008, 0, 0xFEBF_0000, 0xC001, 0, 0] }
}

#[test]
fn function_count_from_header_type() {
    assert_eq!(function_count(0x00), 1);
    assert_eq!(function_count(0x7F), 1);
    assert_eq!(function_count(0x80), 8);
    assert_eq!(function_count(0xFF), 8);
}

#[test]
fn bar_flags_are_masked() {
    assert_eq!(bar_address(0x1234_567F), 0x1234_5670);
    assert_eq!(bar_address(0xC001), 0xC000);
}

#[test]
fn absent_function_reads_all_ones() {
    assert!(function_absent(0xFFFF));
    assert!(!function_absent(0x8086));
}

#[test]
fn capability_header_fields() {
    assert_eq!(capability_header(0x0000_4005), (0x05, 0x40));
    assert_eq!(capability_header(0xABCD_EF10), (0x10, 0xEF));
}

#[test]
fn capability_list_walk() {
    let caps = PCICapabilities::empty();
    let (caps, next) = caps.add_entry(0x0000_5001);
    assert_eq!(caps.bits(), 1);
    assert_eq!(next, 0x50);
    // an id that names no known capability adds nothing
    let (caps, next) = caps.add_entry(0x0000_6010);
    assert_eq!(caps.bits(), 1);
    assert_eq!(next, 0x60);
    let (caps, next) = caps.add_entry(0x0000_0008);
    assert_eq!(caps.bits(), 9);
    assert_eq!(next, 0);
    assert!(caps.contains(PCICapabilities::from_bits(8).unwrap()));
    assert!(PCICapabilities::from_bits(0x10).is_none());
}

#[test]
fn class_codes_round_trip() {
    assert_eq!(DeviceClass::from_u8(0x03), DeviceClass::DisplayController);
    assert_eq!(DeviceClass::from_u8(0x40), DeviceClass::Coprocessor);
    assert_eq!(DeviceClass::from_u8(0x20), DeviceClass::Unknown(0x20));
    for code in 0..=255u8 {
        assert_eq!(DeviceClass::from_u8(code).to_u8(), code);
    }
}

#[test]
fn register_offsets() {
    assert_eq!(PCIEFunctionOffset::HeaderType.offset(), 0x0E);
    assert_eq!(PCIEFunctionOffset::Bar2.offset(), 0x18);
    let f = PCIeFunction::new(VirtAddr::new(0x1000_0000));
    assert_eq!(f.register_address(PCIEFunctionOffset::DeviceID), VirtAddr::new(0x1000_0002));
}

#[test]
fn config_space_geometry() {
    let space = PCIeConfigSpace::identity_mapped(PhysAddr::new(0xE000_0000), 0..=3);
    assert_eq!(space.size(), 4 * BUS_SIZE);
    assert_eq!(space.mapped_pages(), 2);
    assert!(space.contains_bus(3));
    assert!(!space.contains_bus(4));
    let spaces = [space, PCIeConfigSpace::identity_mapped(PhysAddr::new(0xF000_0000), 4..=7)];
    assert_eq!(get_bus_base(&spaces, &PCIeBus::new(2)), VirtAddr::new(0xE000_0000 + 2 * BUS_SIZE));
    assert_eq!(get_bus_base(&spaces, &PCIeBus::new(5)), VirtAddr::new(0xF000_0000 + BUS_SIZE));
}

#[test]
fn function_addresses() {
    let base = VirtAddr::new(0xE000_0000);
    assert_eq!(function_address(base, 3, 2), VirtAddr::new(0xE000_0000 + 3 * DEVICE_SIZE + 0x2000));
}

#[test]
fn bus_scan_finds_present_functions() {
    let mut headers = vec![absent(); 256];
    // device 0: one function
    headers[0] = present(0x1234, 0x1111, 0x03, 0x00);
    // device 2: multi-function, functions 0 and 3 present
    headers[2 * 8] = present(0x8086, 0x29C0, 0x06, 0x80);
    headers[2 * 8 + 3] = present(0x8086, 0x2918, 0x06, 0x00);
    // device 5: function 0 absent; its header type reads as all ones, which
    // announces eight functions, so function 1 is found
    headers[5 * 8 + 1] = present(0x10DE, 0x0001, 0x03, 0x00);
    // device 7: single function, so function 1 is not looked at
    headers[7 * 8] = present(0x1AF4, 0x1000, 0x02, 0x00);
    headers[7 * 8 + 1] = present(0x1AF4, 0x1001, 0x02, 0x00);

    let bus = parse_bus(&headers, &PCIeBus::new(0));
    assert_eq!(bus.bus, 0);
    let found: Vec<u8> = bus.devices.iter().map(|d| d.device).collect();
    assert_eq!(found, vec![0, 2, 5, 7]);
    assert_eq!(bus.devices[0].functions.len(), 1);
    let f = &bus.devices[0].functions[0];
    assert_eq!((f.function, f.vendor_id, f.device_id, f.revision), (0, 0x1234, 0x1111, 2));
    assert_eq!(f.class, DeviceClass::DisplayController);
    assert_eq!(f.bars, [0xFD00_0000, 0, 0xFEBF_0000, 0xC000, 0, 0]);
    let fns: Vec<u8> = bus.devices[1].functions.iter().map(|f| f.function).collect();
    assert_eq!(fns, vec![0, 3]);
    assert_eq!(bus.devices[1].functions[1].device_id, 0x2918);
    let fns: Vec<u8> = bus.devices[2].functions.iter().map(|f| f.function).collect();
    assert_eq!(fns, vec![1]);
    assert_eq!(bus.devices[3].functions.len(), 1);
}

#[test]
fn empty_bus_has_no_devices() {
    let headers = vec![absent(); 256];
    let bus = parse_bus(&headers, &PCIeBus::new(9));
    assert_eq!(bus.bus, 9);
    assert!(bus.devices.is_empty());
}
