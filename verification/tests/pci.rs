use laranja_kernel::pci::bar::calc_bar_address;
use laranja_kernel::pci::bar::read_conf_reg;
use laranja_kernel::pci::find_by_class;
use laranja_kernel::pci::find_xhc;
use laranja_kernel::pci::is_single_function_device;
use laranja_kernel::pci::read_bar;
use laranja_kernel::pci::read_bus_numbers;
use laranja_kernel::pci::read_class_code;
use laranja_kernel::pci::read_header_type;
use laranja_kernel::pci::read_vendor_id;
use laranja_kernel::pci::scan_all_bus;
use laranja_kernel::pci::switch_echi_to_xhci;
use laranja_kernel::pci::ClassCode;
use laranja_kernel::pci::ConfigPort;
use laranja_kernel::pci::PortFn;
use std::cell::Cell;
use laranja_kernel::pci::Entry;
use laranja_kernel::pci::ConfigTable;
use laranja_kernel::pci::Device;
use laranja_kernel::pci::Error;
use laranja_kernel::pci::PciConfig;
use laranja_kernel::pci::PciDevices;
use laranja_kernel::pci::MAX_DEVICES;

const OTHER: ClassCode = ClassCode { base: 0x02, sub: 0x00, interface: 0x00 };
const BRIDGE: ClassCode = ClassCode { base: 0x06, sub: 0x04, interface: 0x00 };
const XHCI: ClassCode = ClassCode { base: 0x0c, sub: 0x03, interface: 0x30 };
const EHCI: ClassCode = ClassCode { base: 0x0c, sub: 0x03, interface: 0x20 };

fn put_function(
    table: &mut ConfigTable,
    bus: u8,
    device: u8,
    function: u8,
    vendor: u16,
    class: ClassCode,
    header_type: u8,
) {
    table.set_dword(bus, device, function, 0x00, 0x1234_0000 | vendor as u32);
    table.set_dword(
        bus,
        device,
        function,
        0x08,
        (class.base as u32) << 24 | (class.sub as u32) << 16 | (class.interface as u32) << 8 | 0x01,
    );
    table.set_dword(bus, device, function, 0x0c, (header_type as u32) << 16 | 0x0000_4008);
}

fn put_bridge(table: &mut ConfigTable, bus: u8, device: u8, function: u8, secondary: u8) {
    put_function(table, bus, device, function, 0x8086, BRIDGE, 0x01);
    table.set_dword(
        bus,
        device,
        function,
        0x18,
        0x00ff_0000 | (secondary as u32) << 8 | bus as u32,
    );
}

fn places(list: &PciDevices) -> Vec<(u8, u8, u8)> {
    let mut seen = Vec::new();
    let mut walk = list.iter();
    while let Some(device) = walk.next() {
        seen.push((device.bus, device.device, device.function));
    }
    seen
}

fn plain(bus: u8, device: u8, function: u8, class_code: ClassCode) -> Device {
    Device { bus, device, function, header_type: 0, class_code }
}

#[test]
fn address_word_has_enable_bit_and_fields() {
    assert_eq!(PciConfig::<ConfigTable>::make_address(0, 0, 0, 0), 0x8000_0000);
    assert_eq!(PciConfig::<ConfigTable>::make_address(0xff, 0, 0, 0), 0x80ff_0000);
    assert_eq!(PciConfig::<ConfigTable>::make_address(0, 31, 0, 0), 0x8000_f800);
    assert_eq!(PciConfig::<ConfigTable>::make_address(0, 0, 7, 0), 0x8000_0700);
    assert_eq!(PciConfig::<ConfigTable>::make_address(1, 2, 3, 0x10), 0x8001_1310);
}

#[test]
fn address_word_drops_low_offset_bits() {
    assert_eq!(PciConfig::<ConfigTable>::make_address(0, 0, 0, 0x0f), 0x8000_000c);
    assert_eq!(PciConfig::<ConfigTable>::make_address(0, 0, 0, 0xff), 0x8000_00fc);
    assert_eq!(
        PciConfig::<ConfigTable>::make_address(5, 6, 7, 0x0d),
        PciConfig::<ConfigTable>::make_address(5, 6, 7, 0x0c)
    );
}

#[test]
fn empty_table_reads_all_ones() {
    let mut table = ConfigTable::new();
    assert_eq!(table.exchange(0x8000_0000), 0xffff_ffff);
    let mut config = PciConfig::new(table);
    assert_eq!(config.read(3, 4, 5, 0x08), 0xffff_ffff);
    assert_eq!(read_vendor_id(&mut config, 0, 0, 0), 0xffff);
}

#[test]
fn table_returns_latest_value_written() {
    let mut table = ConfigTable::new();
    table.set(0x8000_0010, 1);
    table.set(0x8000_0014, 2);
    table.set(0x8000_0010, 3);
    assert_eq!(table.exchange(0x8000_0010), 3);
    assert_eq!(table.exchange(0x8000_0014), 2);
    assert_eq!(table.exchange(0x8000_0018), 0xffff_ffff);
}

#[test]
fn read_goes_through_the_address_word() {
    let mut table = ConfigTable::new();
    table.set(0x8001_1310, 0xcafe_f00d);
    let mut config = PciConfig::new(table);
    assert_eq!(config.read(1, 2, 3, 0x10), 0xcafe_f00d);
    assert_eq!(config.read(1, 2, 3, 0x13), 0xcafe_f00d);
    assert_eq!(config.read(1, 2, 3, 0x14), 0xffff_ffff);
    let dev = plain(1, 2, 3, OTHER);
    assert_eq!(config.read_dev(&dev, 0x10), 0xcafe_f00d);
}

#[test]
fn registers_decode_by_their_bit_ranges() {
    let mut table = ConfigTable::new();
    table.set_dword(2, 3, 1, 0x00, 0xabcd_8086);
    table.set_dword(2, 3, 1, 0x08, 0x0c03_3017);
    table.set_dword(2, 3, 1, 0x0c, 0x1281_3456);
    table.set_dword(2, 3, 1, 0x18, 0x4433_2211);
    let mut config = PciConfig::new(table);
    assert_eq!(read_vendor_id(&mut config, 2, 3, 1), 0x8086);
    assert_eq!(read_class_code(&mut config, 2, 3, 1), XHCI);
    assert_eq!(read_header_type(&mut config, 2, 3, 1), 0x81);
    assert_eq!(read_bus_numbers(&mut config, 2, 3, 1), 0x4433_2211);
    let dev = plain(2, 3, 1, XHCI);
    assert_eq!(dev.get_vendor_id(&mut config), 0x8086);
}

#[test]
fn header_type_bit_seven_marks_multi_function() {
    assert!(is_single_function_device(0x00));
    assert!(is_single_function_device(0x01));
    assert!(is_single_function_device(0x7f));
    assert!(!is_single_function_device(0x80));
    assert!(!is_single_function_device(0x81));
    assert!(!is_single_function_device(0xff));
}

#[test]
fn new_list_is_empty() {
    let list = PciDevices::new();
    assert_eq!(list.len(), 0);
    assert_eq!(list.get(0), None);
    assert_eq!(list.iter().next(), None);
}

#[test]
fn list_keeps_insertion_order() {
    let mut list = PciDevices::new();
    assert_eq!(list.add_device(plain(0, 3, 0, OTHER)), Ok(()));
    assert_eq!(list.add_device(plain(0, 1, 0, XHCI)), Ok(()));
    assert_eq!(list.add_device(plain(7, 2, 5, OTHER)), Ok(()));
    assert_eq!(list.len(), 3);
    assert_eq!(places(&list), vec![(0, 3, 0), (0, 1, 0), (7, 2, 5)]);
    assert_eq!(list.get(1), Some(plain(0, 1, 0, XHCI)));
    assert_eq!(list.get(3), None);
}

#[test]
fn thirty_third_device_is_refused() {
    let mut list = PciDevices::new();
    for i in 0..32u8 {
        assert_eq!(list.add_device(plain(0, i, 0, OTHER)), Ok(()));
    }
    assert_eq!(list.len(), MAX_DEVICES);
    assert_eq!(list.add_device(plain(1, 0, 0, OTHER)), Err(Error::Full));
    assert_eq!(list.len(), 32);
    assert_eq!(list.get(31), Some(plain(0, 31, 0, OTHER)));
    assert_eq!(list.add_device(plain(1, 0, 0, OTHER)), Err(Error::Full));
    assert_eq!(places(&list).len(), 32);
}

#[test]
fn walk_hands_out_each_device_once() {
    let mut list = PciDevices::new();
    list.add_device(plain(0, 0, 0, OTHER)).unwrap();
    list.add_device(plain(0, 1, 0, BRIDGE)).unwrap();
    let mut walk = list.iter();
    assert_eq!(walk.next(), Some(plain(0, 0, 0, OTHER)));
    assert_eq!(walk.next(), Some(plain(0, 1, 0, BRIDGE)));
    assert_eq!(walk.next(), None);
    assert_eq!(walk.next(), None);
}

#[test]
fn scan_of_empty_space_finds_nothing() {
    let mut config = PciConfig::new(ConfigTable::new());
    let found = scan_all_bus(&mut config).ok().unwrap();
    assert_eq!(found.len(), 0);
}

#[test]
fn scan_is_depth_first() {
    let mut table = ConfigTable::new();
    put_function(&mut table, 0, 0, 0, 0x8086, OTHER, 0x00);
    put_bridge(&mut table, 0, 1, 0, 5);
    put_function(&mut table, 0, 2, 0, 0x8086, OTHER, 0x00);
    put_function(&mut table, 5, 0, 0, 0x1033, XHCI, 0x00);
    put_function(&mut table, 5, 3, 0, 0x1033, OTHER, 0x00);
    let mut config = PciConfig::new(table);
    let found = scan_all_bus(&mut config).ok().unwrap();
    assert_eq!(places(&found), vec![(0, 0, 0), (0, 1, 0), (5, 0, 0), (5, 3, 0), (0, 2, 0)]);
}

#[test]
fn scan_records_header_type_and_class() {
    let mut table = ConfigTable::new();
    put_function(&mut table, 0, 0, 0, 0x8086, OTHER, 0x00);
    put_function(&mut table, 0, 4, 0, 0x1033, XHCI, 0x00);
    let mut config = PciConfig::new(table);
    let found = scan_all_bus(&mut config).ok().unwrap();
    assert_eq!(
        found.get(0),
        Some(Device { bus: 0, device: 0, function: 0, header_type: 0x00, class_code: OTHER })
    );
    assert_eq!(
        found.get(1),
        Some(Device { bus: 0, device: 4, function: 0, header_type: 0x00, class_code: XHCI })
    );
}

#[test]
fn scan_skips_functions_without_vendor() {
    let mut table = ConfigTable::new();
    put_function(&mut table, 0, 0, 0, 0x8086, OTHER, 0x00);
    put_function(&mut table, 0, 1, 0, 0xffff, XHCI, 0x80);
    put_function(&mut table, 0, 1, 1, 0x8086, XHCI, 0x00);
    put_function(&mut table, 0, 2, 0, 0x8086, OTHER, 0x80);
    put_function(&mut table, 0, 2, 1, 0xffff, XHCI, 0x00);
    put_function(&mut table, 0, 2, 2, 0x8086, XHCI, 0x00);
    let mut config = PciConfig::new(table);
    let found = scan_all_bus(&mut config).ok().unwrap();
    assert_eq!(places(&found), vec![(0, 0, 0), (0, 2, 0), (0, 2, 2)]);
}

#[test]
fn scan_ignores_other_functions_of_single_function_device() {
    let mut table = ConfigTable::new();
    put_function(&mut table, 0, 0, 0, 0x8086, OTHER, 0x00);
    put_function(&mut table, 0, 1, 0, 0x8086, OTHER, 0x00);
    put_function(&mut table, 0, 1, 1, 0x8086, XHCI, 0x00);
    let mut config = PciConfig::new(table);
    let found = scan_all_bus(&mut config).ok().unwrap();
    assert_eq!(places(&found), vec![(0, 0, 0), (0, 1, 0)]);
}

#[test]
fn scan_visits_all_functions_of_multi_function_device() {
    let mut table = ConfigTable::new();
    put_function(&mut table, 0, 0, 0, 0x8086, OTHER, 0x00);
    put_function(&mut table, 0, 31, 0, 0x8086, OTHER, 0x80);
    put_function(&mut table, 0, 31, 3, 0x8086, XHCI, 0x00);
    put_function(&mut table, 0, 31, 7, 0x8086, EHCI, 0x00);
    let mut config = PciConfig::new(table);
    let found = scan_all_bus(&mut config).ok().unwrap();
    assert_eq!(places(&found), vec![(0, 0, 0), (0, 31, 0), (0, 31, 3), (0, 31, 7)]);
}

#[test]
fn scan_descends_through_bridge_on_multi_function_device() {
    let mut table = ConfigTable::new();
    put_function(&mut table, 0, 0, 0, 0x8086, OTHER, 0x00);
    put_function(&mut table, 0, 1, 0, 0x8086, OTHER, 0x80);
    put_bridge(&mut table, 0, 1, 2, 9);
    put_function(&mut table, 0, 1, 4, 0x8086, OTHER, 0x00);
    put_function(&mut table, 9, 7, 0, 0x8086, XHCI, 0x00);
    let mut config = PciConfig::new(table);
    let found = scan_all_bus(&mut config).ok().unwrap();
    assert_eq!(places(&found), vec![(0, 0, 0), (0, 1, 0), (0, 1, 2), (9, 7, 0), (0, 1, 4)]);
}

#[test]
fn scan_follows_nested_bridges() {
    let mut table = ConfigTable::new();
    put_function(&mut table, 0, 0, 0, 0x8086, OTHER, 0x00);
    put_bridge(&mut table, 0, 2, 0, 1);
    put_bridge(&mut table, 1, 0, 0, 2);
    put_function(&mut table, 2, 5, 0, 0x8086, XHCI, 0x00);
    put_function(&mut table, 1, 1, 0, 0x8086, OTHER, 0x00);
    put_function(&mut table, 0, 3, 0, 0x8086, OTHER, 0x00);
    let mut config = PciConfig::new(table);
    let found = scan_all_bus(&mut config).ok().unwrap();
    assert_eq!(
        places(&found),
        vec![(0, 0, 0), (0, 2, 0), (1, 0, 0), (2, 5, 0), (1, 1, 0), (0, 3, 0)]
    );
}

#[test]
fn multi_function_host_bridge_has_a_bus_per_function() {
    let mut table = ConfigTable::new();
    put_function(&mut table, 0, 0, 0, 0x8086, OTHER, 0x80);
    put_function(&mut table, 0, 0, 2, 0x8086, OTHER, 0x00);
    put_function(&mut table, 0, 5, 0, 0x8086, XHCI, 0x00);
    put_function(&mut table, 2, 1, 0, 0x8086, EHCI, 0x00);
    put_function(&mut table, 1, 1, 0, 0x8086, EHCI, 0x00);
    let mut config = PciConfig::new(table);
    let found = scan_all_bus(&mut config).ok().unwrap();
    assert_eq!(places(&found), vec![(0, 0, 0), (0, 0, 2), (0, 5, 0), (2, 1, 0)]);
}

#[test]
fn single_function_host_bridge_has_bus_zero_only() {
    let mut table = ConfigTable::new();
    put_function(&mut table, 0, 0, 0, 0x8086, OTHER, 0x00);
    put_function(&mut table, 0, 0, 3, 0x8086, OTHER, 0x00);
    put_function(&mut table, 3, 1, 0, 0x8086, EHCI, 0x00);
    let mut config = PciConfig::new(table);
    let found = scan_all_bus(&mut config).ok().unwrap();
    assert_eq!(places(&found), vec![(0, 0, 0)]);
}

#[test]
fn scan_with_exactly_thirty_two_functions_succeeds() {
    let mut table = ConfigTable::new();
    for device in 0..32u8 {
        put_function(&mut table, 0, device, 0, 0x8086, OTHER, 0x00);
    }
    let mut config = PciConfig::new(table);
    let found = scan_all_bus(&mut config).ok().unwrap();
    assert_eq!(found.len(), 32);
    assert_eq!(places(&found)[31], (0, 31, 0));
}

#[test]
fn scan_with_thirty_three_functions_is_full() {
    let mut table = ConfigTable::new();
    for device in 0..31u8 {
        put_function(&mut table, 0, device, 0, 0x8086, OTHER, 0x00);
    }
    put_function(&mut table, 0, 31, 0, 0x8086, OTHER, 0x80);
    put_function(&mut table, 0, 31, 1, 0x8086, OTHER, 0x00);
    let mut config = PciConfig::new(table);
    assert_eq!(scan_all_bus(&mut config).err(), Some(Error::Full));
}

#[test]
fn scan_of_bridge_loop_ends_full() {
    let mut table = ConfigTable::new();
    put_function(&mut table, 0, 0, 0, 0x8086, OTHER, 0x00);
    put_bridge(&mut table, 0, 1, 0, 0);
    let mut config = PciConfig::new(table);
    assert_eq!(scan_all_bus(&mut config).err(), Some(Error::Full));
}

#[test]
fn scan_bus_reports_full_and_keeps_what_fitted() {
    let mut table = ConfigTable::new();
    for device in 0..4u8 {
        put_function(&mut table, 6, device, 0, 0x8086, XHCI, 0x00);
    }
    let mut config = PciConfig::new(table);
    let mut list = PciDevices::new();
    for device in 0..30u8 {
        list.add_device(plain(0, device, 0, OTHER)).unwrap();
    }
    assert_eq!(list.scan_bus(&mut config, 6), Err(Error::Full));
    assert_eq!(list.len(), 32);
    assert_eq!(list.get(30).map(|d| (d.bus, d.device)), Some((6, 0)));
    assert_eq!(list.get(31).map(|d| (d.bus, d.device)), Some((6, 1)));
}

#[test]
fn scan_function_records_even_absent_function() {
    let mut config = PciConfig::new(ConfigTable::new());
    let mut list = PciDevices::new();
    assert_eq!(list.scan_function(&mut config, 4, 5, 6), Ok(()));
    assert_eq!(
        list.get(0),
        Some(Device {
            bus: 4,
            device: 5,
            function: 6,
            header_type: 0xff,
            class_code: ClassCode { base: 0xff, sub: 0xff, interface: 0xff },
        })
    );
}

#[test]
fn scan_device_appends_to_existing_list() {
    let mut table = ConfigTable::new();
    put_function(&mut table, 3, 4, 0, 0x8086, OTHER, 0x80);
    put_function(&mut table, 3, 4, 1, 0x8086, XHCI, 0x00);
    let mut config = PciConfig::new(table);
    let mut list = PciDevices::new();
    list.add_device(plain(0, 0, 0, OTHER)).unwrap();
    assert_eq!(list.scan_device(&mut config, 3, 4), Ok(()));
    assert_eq!(places(&list), vec![(0, 0, 0), (3, 4, 0), (3, 4, 1)]);
}

#[test]
fn bar_of_32_bits_is_returned_as_is() {
    let mut table = ConfigTable::new();
    table.set_dword(0, 1, 0, 0x10, 0xfebf_0000);
    table.set_dword(0, 1, 0, 0x14, 0x0000_0001);
    table.set_dword(0, 1, 0, 0x24, 0x0000_c001);
    let mut config = PciConfig::new(table);
    let dev = plain(0, 1, 0, XHCI);
    assert_eq!(read_bar(&mut config, &dev, 0), Ok(0xfebf_0000));
    assert_eq!(read_bar(&mut config, &dev, 1), Ok(0x0000_0001));
    assert_eq!(read_bar(&mut config, &dev, 5), Ok(0x0000_c001));
    assert_eq!(read_bar(&mut config, &dev, 3), Ok(0xffff_ffff_ffff_ffff));
}

#[test]
fn bar_of_64_bits_joins_both_halves_unmasked() {
    let mut table = ConfigTable::new();
    table.set_dword(0, 1, 0, 0x10, 0xc000_0004);
    table.set_dword(0, 1, 0, 0x14, 0x0000_0001);
    table.set_dword(0, 1, 0, 0x20, 0x0000_000c);
    table.set_dword(0, 1, 0, 0x24, 0xffff_ffff);
    let mut config = PciConfig::new(table);
    let dev = plain(0, 1, 0, XHCI);
    assert_eq!(read_bar(&mut config, &dev, 0), Ok(0x1_c000_0004));
    assert_eq!(read_bar(&mut config, &dev, 4), Ok(0xffff_ffff_0000_000c));
}

#[test]
fn bar_index_out_of_range() {
    let mut table = ConfigTable::new();
    table.set_dword(0, 1, 0, 0x24, 0xc000_0004);
    table.set_dword(0, 1, 0, 0x28, 0x0000_0001);
    let mut config = PciConfig::new(table);
    let dev = plain(0, 1, 0, XHCI);
    assert_eq!(read_bar(&mut config, &dev, 5), Err(Error::OutOfRange));
    assert_eq!(read_bar(&mut config, &dev, 6), Err(Error::OutOfRange));
    assert_eq!(read_bar(&mut config, &dev, 7), Err(Error::OutOfRange));
    assert_eq!(read_bar(&mut config, &dev, usize::MAX), Err(Error::OutOfRange));
}

fn usb_list(table: &mut ConfigTable, entries: &[(u8, u16, ClassCode)]) -> PciDevices {
    let mut list = PciDevices::new();
    for (device, vendor, class) in entries {
        put_function(table, 0, *device, 0, *vendor, *class, 0x00);
        list.add_device(plain(0, *device, 0, *class)).unwrap();
    }
    list
}

#[test]
fn find_xhc_without_controller_finds_none() {
    let mut table = ConfigTable::new();
    let list = usb_list(&mut table, &[(0, 0x8086, OTHER), (1, 0x8086, EHCI)]);
    let mut config = PciConfig::new(table);
    assert_eq!(find_xhc(&mut config, &list), None);
    assert_eq!(find_xhc(&mut config, &PciDevices::new()), None);
}

#[test]
fn find_xhc_takes_first_match_of_other_vendors() {
    let mut table = ConfigTable::new();
    let list = usb_list(
        &mut table,
        &[(0, 0x8086, OTHER), (1, 0x1033, XHCI), (2, 0x1b73, XHCI), (3, 0x1912, XHCI)],
    );
    let mut config = PciConfig::new(table);
    assert_eq!(find_xhc(&mut config, &list).map(|d| d.device), Some(1));
}

#[test]
fn find_xhc_prefers_intel() {
    let mut table = ConfigTable::new();
    let list = usb_list(
        &mut table,
        &[(1, 0x1033, XHCI), (2, 0x8086, EHCI), (3, 0x8086, XHCI), (4, 0x8086, XHCI)],
    );
    let mut config = PciConfig::new(table);
    assert_eq!(find_xhc(&mut config, &list).map(|d| d.device), Some(3));
}

#[test]
fn find_by_class_needs_exact_class() {
    let mut table = ConfigTable::new();
    let near = ClassCode { base: 0x0c, sub: 0x03, interface: 0x31 };
    let list = usb_list(&mut table, &[(1, 0x1033, near), (2, 0x1033, EHCI)]);
    let mut config = PciConfig::new(table);
    assert_eq!(find_by_class(&mut config, &list, XHCI, 0x1033), None);
    assert_eq!(find_by_class(&mut config, &list, EHCI, 0x8086).map(|d| d.device), Some(2));
    assert_eq!(find_by_class(&mut config, &list, near, 0x1033).map(|d| d.device), Some(1));
}

#[test]
fn ehci_of_intel_is_reported() {
    let mut table = ConfigTable::new();
    let list = usb_list(
        &mut table,
        &[(1, 0x1033, EHCI), (2, 0x8086, XHCI), (3, 0x8086, EHCI), (4, 0x8086, EHCI)],
    );
    let mut config = PciConfig::new(table);
    let xhc = find_xhc(&mut config, &list).unwrap();
    assert_eq!(xhc.device, 2);
    assert_eq!(switch_echi_to_xhci(&mut config, &xhc, &list).map_err(|d| d.device), Err(3));
}

#[test]
fn no_ehci_of_intel_is_fine() {
    let mut table = ConfigTable::new();
    let list = usb_list(&mut table, &[(1, 0x1033, EHCI), (2, 0x8086, XHCI)]);
    let mut config = PciConfig::new(table);
    let xhc = find_xhc(&mut config, &list).unwrap();
    assert_eq!(switch_echi_to_xhci(&mut config, &xhc, &list), Ok(()));
}

/// A port that never gives the same answer twice.
fn fickle() -> PortFn<impl Fn(u32) -> u32> {
    let last = Cell::new(1u32);
    PortFn::new(move |_address: u32| {
        let next = last.get().wrapping_mul(0x0101_0101).wrapping_add(0x1234_5677);
        last.set(next);
        next
    })
}

#[test]
fn each_register_is_read_once() {
    let mut table = ConfigTable::new();
    put_function(&mut table, 0, 0, 0, 0x8086, OTHER, 0x00);
    put_bridge(&mut table, 0, 1, 0, 5);
    put_function(&mut table, 5, 0, 0, 0x1033, XHCI, 0x80);
    put_function(&mut table, 5, 0, 1, 0x1033, EHCI, 0x00);
    let mut config = PciConfig::new(table);
    let found = scan_all_bus(&mut config).ok().unwrap();
    assert_eq!(places(&found), vec![(0, 0, 0), (0, 1, 0), (5, 0, 0), (5, 0, 1)]);
    let known: Vec<u32> = config.known().iter().map(|entry| entry.address).collect();
    let mut sorted = known.clone();
    sorted.sort();
    sorted.dedup();
    assert_eq!(sorted.len(), known.len());
    let read_after_scan = known.len();
    assert_eq!(config.port().history(), config.known());
    let again = scan_all_bus(&mut config).ok().unwrap();
    assert_eq!(places(&again), places(&found));
    assert_eq!(config.known().len(), read_after_scan);
    assert_eq!(config.port().history().len(), read_after_scan);
    let xhc = find_xhc(&mut config, &found).unwrap();
    assert_eq!((xhc.bus, xhc.device, xhc.function), (5, 0, 0));
    assert_eq!(config.known().len(), read_after_scan);
    assert_eq!(read_bar(&mut config, &xhc, 0), Ok(0xffff_ffff_ffff_ffff));
    assert_eq!(config.known().len(), read_after_scan + 2);
    assert_eq!(config.port().history(), config.known());
    assert_eq!(read_bar(&mut config, &xhc, 6), Err(Error::OutOfRange));
    assert_eq!(config.port().history().len(), read_after_scan + 2);
}

#[test]
fn registers_are_read_in_scan_order() {
    let mut table = ConfigTable::new();
    put_function(&mut table, 0, 0, 0, 0x8086, OTHER, 0x00);
    let mut config = PciConfig::new(table);
    scan_all_bus(&mut config).ok().unwrap();
    let known = config.known();
    assert_eq!(known[0], Entry { address: 0x8000_000c, value: 0x0000_4008 });
    assert_eq!(known[1], Entry { address: 0x8000_0000, value: 0x1234_8086 });
    assert_eq!(known[2], Entry { address: 0x8000_0008, value: 0x0200_0001 });
    assert_eq!(known[3], Entry { address: 0x8000_0800, value: 0xffff_ffff });
    assert_eq!(known.len(), 3 + 31);
}

#[test]
fn remembered_register_is_found_again() {
    let mut table = ConfigTable::new();
    table.set(0x8000_0010, 7);
    let mut config = PciConfig::new(table);
    assert_eq!(config.find(0x8000_0010), None);
    assert_eq!(config.read_word(0x8000_0010), 7);
    assert_eq!(config.find(0x8000_0010), Some(7));
    assert_eq!(config.find(0x8000_0014), None);
    assert_eq!(config.read_word(0x8000_0014), 0xffff_ffff);
    assert_eq!(config.known().len(), 2);
}

#[test]
fn answers_that_change_are_heard_once() {
    let mut config = PciConfig::new(fickle());
    let first = config.read(0, 0, 0, 0x08);
    assert_eq!(config.read(0, 0, 0, 0x08), first);
    assert_eq!(config.read(0, 0, 0, 0x0b), first);
    let vendor = read_vendor_id(&mut config, 3, 0, 0);
    assert_eq!(read_vendor_id(&mut config, 3, 0, 0), vendor);
    let outcome = scan_all_bus(&mut config).map(|list| places(&list)).map_err(|e| e);
    let again = scan_all_bus(&mut config).map(|list| places(&list)).map_err(|e| e);
    assert_eq!(outcome, again);
}

#[test]
fn forgotten_registers_are_read_again() {
    let mut config = PciConfig::new(fickle());
    let first = config.read(0, 0, 0, 0x00);
    assert_eq!(config.read(0, 0, 0, 0x00), first);
    assert_eq!(config.known().len(), 1);
    config.forget();
    assert_eq!(config.known().len(), 0);
    assert_eq!(config.find(0x8000_0000), None);
    let second = config.read(0, 0, 0, 0x00);
    assert_ne!(second, first);
    assert_eq!(config.read(0, 0, 0, 0x00), second);
}

#[test]
fn base_address_registers_lie_four_bytes_apart() {
    assert_eq!(calc_bar_address(0), 0x10);
    assert_eq!(calc_bar_address(1), 0x14);
    assert_eq!(calc_bar_address(2), 0x18);
    assert_eq!(calc_bar_address(3), 0x1c);
    assert_eq!(calc_bar_address(4), 0x20);
    assert_eq!(calc_bar_address(5), 0x24);
}

#[test]
fn register_of_a_device_is_read_at_its_place() {
    let mut table = ConfigTable::new();
    table.set_dword(9, 8, 7, 0x3c, 0x0000_010b);
    let mut config = PciConfig::new(table);
    let dev = plain(9, 8, 7, OTHER);
    assert_eq!(read_conf_reg(&mut config, &dev, 0x3c), 0x0000_010b);
    assert_eq!(read_conf_reg(&mut config, &dev, 0x3f), 0x0000_010b);
    assert_eq!(read_conf_reg(&mut config, &plain(9, 8, 6, OTHER), 0x3c), 0xffff_ffff);
    assert_eq!(config.known().len(), 2);
}

#[test]
fn table_keeps_account_of_what_it_was_asked() {
    let mut table = ConfigTable::new();
    table.set(0x8000_0010, 7);
    assert_eq!(table.history().len(), 0);
    assert_eq!(table.get(0x8000_0010), 7);
    assert_eq!(table.history().len(), 0);
    assert_eq!(table.exchange(0x8000_0010), 7);
    assert_eq!(table.exchange(0x8000_0014), 0xffff_ffff);
    assert_eq!(table.exchange(0x8000_0010), 7);
    assert_eq!(
        table.history(),
        &vec![
            Entry { address: 0x8000_0010, value: 7 },
            Entry { address: 0x8000_0014, value: 0xffff_ffff },
            Entry { address: 0x8000_0010, value: 7 },
        ]
    );
}

#[test]
fn port_is_asked_only_for_what_is_not_remembered() {
    let mut table = ConfigTable::new();
    table.set(0x8000_0010, 7);
    let mut config = PciConfig::new(table);
    assert_eq!(config.read_word(0x8000_0010), 7);
    assert_eq!(config.read_word(0x8000_0010), 7);
    assert_eq!(config.read_word(0x8000_0014), 0xffff_ffff);
    assert_eq!(
        config.port().history(),
        &vec![
            Entry { address: 0x8000_0010, value: 7 },
            Entry { address: 0x8000_0014, value: 0xffff_ffff },
        ]
    );
    config.forget();
    assert_eq!(config.read_word(0x8000_0010), 7);
    assert_eq!(config.port().history().len(), 3);
    assert_eq!(config.known().len(), 1);
}

#[test]
fn function_makes_the_exchanges() {
    let asked = std::rc::Rc::new(std::cell::RefCell::new(Vec::new()));
    let seen = asked.clone();
    let mut config = PciConfig::new(PortFn::new(move |address: u32| {
        seen.borrow_mut().push(address);
        address ^ 0x8000_00ff
    }));
    assert_eq!(config.read(0, 0, 0, 0x08), 0x0000_00f7);
    assert_eq!(config.read(0, 0, 0, 0x08), 0x0000_00f7);
    assert_eq!(config.read(1, 0, 0, 0x00), 0x0001_00ff);
    assert_eq!(*asked.borrow(), vec![0x8000_0008, 0x8001_0000]);
}

#[test]
fn device_scan_records_each_function_once_in_rising_order() {
    let mut table = ConfigTable::new();
    put_function(&mut table, 3, 4, 0, 0x8086, OTHER, 0x80);
    put_bridge(&mut table, 3, 4, 2, 7);
    put_function(&mut table, 3, 4, 3, 0xffff, XHCI, 0x00);
    put_function(&mut table, 3, 4, 5, 0x8086, EHCI, 0x00);
    put_bridge(&mut table, 3, 4, 6, 7);
    put_function(&mut table, 7, 4, 0, 0x8086, XHCI, 0x80);
    put_function(&mut table, 7, 4, 2, 0x8086, XHCI, 0x00);
    let mut config = PciConfig::new(table);
    let mut list = PciDevices::new();
    assert_eq!(list.scan_device(&mut config, 3, 4), Ok(()));
    assert_eq!(
        places(&list),
        vec![
            (3, 4, 0),
            (3, 4, 2),
            (7, 4, 0),
            (7, 4, 2),
            (3, 4, 5),
            (3, 4, 6),
            (7, 4, 0),
            (7, 4, 2)
        ]
    );
    let own: Vec<u8> =
        places(&list).iter().filter(|p| p.0 == 3 && p.1 == 4).map(|p| p.2).collect();
    assert_eq!(own, vec![0, 2, 5, 6]);
}

#[test]
fn device_scan_that_comes_back_to_its_device_is_full() {
    let mut table = ConfigTable::new();
    put_function(&mut table, 3, 4, 0, 0x8086, OTHER, 0x80);
    put_bridge(&mut table, 3, 4, 1, 7);
    put_bridge(&mut table, 7, 0, 0, 3);
    let mut config = PciConfig::new(table);
    let mut list = PciDevices::new();
    assert_eq!(list.scan_device(&mut config, 3, 4), Err(Error::Full));
    assert_eq!(list.len(), 32);
}
