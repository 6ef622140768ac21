use cyme::config::Config;
use cyme::display::{mask_serial, prepare, MaskSerial, PrintSettings, Sort};
use cyme::system_profiler::{DeviceLocation, SPUSBDataType, USBBus, USBDevice, USBFilter};

fn device_numbered(number: u8, vid: u16) -> USBDevice {
    USBDevice {
        name: String::from("dev"),
        serial_num: Some(String::from("AB12")),
        manufacturer: None,
        vendor_id: Some(vid),
        product_id: None,
        location_id: DeviceLocation { bus: 1, number, tree_positions: vec![number] },
        device_speed: None,
        bcd_device: None,
        bcd_usb: None,
        class: None,
        sub_class: None,
        protocol: None,
        bus_power: None,
        bus_power_used: None,
        extra_current_used: None,
        extra: None,
        devices: None,
    }
}

fn bus_with(devices: Option<Vec<USBDevice>>) -> USBBus {
    USBBus {
        name: String::from("bus"),
        host_controller: String::from("hc"),
        bus_number: 1,
        pci_vendor: None,
        pci_device: None,
        pci_revision: None,
        devices,
    }
}

#[test]
fn test_mask_hide() {
    let mut d = device_numbered(1, 0x1d6b);
    mask_serial(&mut d, &MaskSerial::Hide, false);
    assert_eq!(d.serial_num, Some(String::from("****")));
}

#[test]
fn test_mask_replace() {
    let mut d = device_numbered(1, 0x1d6b);
    mask_serial(&mut d, &MaskSerial::Replace, false);
    let masked = d.serial_num.unwrap();
    assert_eq!(masked.len(), 4);
    assert!(masked.chars().all(|c| c.is_ascii_uppercase() || c.is_ascii_digit()));
}

#[test]
fn test_mask_scramble() {
    let mut d = device_numbered(1, 0x1d6b);
    mask_serial(&mut d, &MaskSerial::Scramble, false);
    let masked = d.serial_num.unwrap();
    assert_eq!(masked.len(), 4);
    assert!(masked.chars().all(|c| "AB12".contains(c)));
}

#[test]
fn test_mask_scramble_single_char_serial() {
    let mut d = device_numbered(1, 0x1d6b);
    d.serial_num = Some(String::from("AAAA"));
    mask_serial(&mut d, &MaskSerial::Scramble, false);
    assert_eq!(d.serial_num, Some(String::from("AAAA")));
}

#[test]
fn test_mask_recursive() {
    let mut hub = device_numbered(1, 0x1d6b);
    hub.devices = Some(vec![device_numbered(2, 0x1d6b)]);
    mask_serial(&mut hub, &MaskSerial::Hide, true);
    assert_eq!(hub.serial_num, Some(String::from("****")));
    let child = &hub.devices.unwrap()[0];
    assert_eq!(child.serial_num, Some(String::from("****")));
}

#[test]
fn test_sort_by_device_number() {
    let devices = vec![
        device_numbered(3, 1),
        device_numbered(1, 2),
        device_numbered(2, 3),
    ];
    let sorted = Sort::DeviceNumber.sort_devices(devices);
    let numbers: Vec<u8> = sorted.iter().map(|d| d.location_id.number).collect();
    assert_eq!(numbers, vec![1, 2, 3]);
}

#[test]
fn test_no_sort_preserves_order() {
    let devices = vec![
        device_numbered(3, 1),
        device_numbered(1, 2),
        device_numbered(2, 3),
    ];
    let kept = Sort::NoSort.sort_devices(devices);
    let numbers: Vec<u8> = kept.iter().map(|d| d.location_id.number).collect();
    assert_eq!(numbers, vec![3, 1, 2]);
}

#[test]
fn test_sort_refs_by_branch_position() {
    let a = device_numbered(1, 1);
    let b = device_numbered(2, 2);
    let c = device_numbered(3, 3);
    let refs = vec![&c, &a, &b];
    let sorted = Sort::BranchPosition.sort_devices_ref(&refs);
    let numbers: Vec<u8> = sorted.iter().map(|d| d.location_id.number).collect();
    assert_eq!(numbers, vec![1, 2, 3]);
}

#[test]
fn test_flatten_collapses_tree() {
    let mut leaf = device_numbered(3, 0x3);
    leaf.location_id.tree_positions = vec![1, 1];
    let mut hub = device_numbered(1, 0x1);
    hub.devices = Some(vec![leaf]);
    let mut sp = SPUSBDataType { buses: vec![bus_with(Some(vec![hub]))] };
    sp.flatten();
    let devices = sp.buses.remove(0).devices.unwrap();
    assert_eq!(devices.len(), 2);
    assert!(devices.iter().all(|d| d.devices.is_none()));
    let numbers: Vec<u8> = devices.iter().map(|d| d.location_id.number).collect();
    assert_eq!(numbers, vec![1, 3]);
}

#[test]
fn test_flatten_filter_keeps_matching_leaf_and_drops_empty_bus() {
    // a tree of depth three: hub -> hub -> leaf, and a second bus whose
    // only device does not match the filter
    let mut leaf = device_numbered(3, 0x3);
    leaf.location_id.tree_positions = vec![1, 1, 1];
    let mut inner_hub = device_numbered(2, 0x2);
    inner_hub.devices = Some(vec![leaf]);
    let mut outer_hub = device_numbered(1, 0x1);
    outer_hub.devices = Some(vec![inner_hub]);
    let other = device_numbered(9, 0x9);
    let mut sp = SPUSBDataType {
        buses: vec![bus_with(Some(vec![outer_hub])), bus_with(Some(vec![other]))],
    };
    let filter = USBFilter { vid: Some(0x3), pid: None, exclude_empty_hub: false };
    let mut settings = PrintSettings::default();
    settings.json = true;
    settings.hide_buses = true;
    prepare(&mut sp, Some(filter), &settings);
    // the matching leaf survives the flatten-then-filter pass, and the bus
    // whose devices all fell away is hidden
    assert_eq!(sp.buses.len(), 1);
    let devices = sp.buses.remove(0).devices.unwrap();
    assert_eq!(devices.len(), 1);
    assert_eq!(devices[0].vendor_id, Some(0x3));
    assert_eq!(devices[0].location_id.number, 3);
}

#[test]
fn test_prepare_sorts_buses() {
    let mut b1 = bus_with(Some(vec![device_numbered(1, 1)]));
    b1.bus_number = 2;
    let mut b2 = bus_with(Some(vec![device_numbered(2, 2)]));
    b2.bus_number = 1;
    let mut sp = SPUSBDataType { buses: vec![b1, b2] };
    let mut settings = PrintSettings::default();
    settings.sort_buses = true;
    prepare(&mut sp, None, &settings);
    let numbers: Vec<u8> = sp.buses.iter().map(|b| b.bus_number).collect();
    assert_eq!(numbers, vec![1, 2]);
}

#[test]
fn test_hub_detection() {
    let mut hub = device_numbered(1, 1);
    hub.class = Some(String::from("Hub"));
    assert!(hub.is_hub());
    let bus = bus_with(Some(vec![hub]));
    assert!(bus.has_empty_hubs());
    assert!(bus.has_devices());
    assert!(!bus_with(None).has_devices());
}

#[test]
fn test_config_defaults_and_example() {
    let c = Config::new();
    assert!(!c.tree);
    assert_eq!(c.verbose, 0);
    assert!(c.blocks.is_none());
    let s = Config::sys();
    assert!(s.mask_serials.is_none());
    let e = Config::example();
    assert!(e.blocks.is_some());
    assert!(e.bus_blocks.is_some());
    assert!(e.endpoint_blocks.is_some());
    assert_eq!(e.icons.tree_edge, "\u{251c}\u{2500}\u{2500} ");
}
