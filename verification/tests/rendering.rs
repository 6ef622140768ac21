use cyme::colour::{apply_colour, bold_underline, Colour};
use cyme::display::{
    connector_icon, generate_tree_data, print_endpoints, print_flattened_devices, print_sp_usb,
    Block, DeviceBlocks, EndpointBlocks, PrintSettings, TreeData,
};
use cyme::icon::Icon;
use cyme::system_profiler::{DeviceLocation, SPUSBDataType, USBBus, USBDevice};
use cyme::usb::{
    ConfigAttributes, Direction, EndpointAddress, SyncType, TransferType, UsageType,
    USBConfiguration, USBEndpoint,
};

fn sample_device(name: &str, number: u8, positions: Vec<u8>) -> USBDevice {
    USBDevice {
        name: String::from(name),
        serial_num: None,
        manufacturer: None,
        vendor_id: Some(0x1d6b),
        product_id: Some(0x0003),
        location_id: DeviceLocation { bus: 1, number, tree_positions: positions },
        device_speed: None,
        bcd_device: None,
        bcd_usb: None,
        class: None,
        sub_class: None,
        protocol: None,
        bus_power: None,
        bus_power_used: None,
        extra_current_used: None,
        extra: None,
        devices: None,
    }
}

fn sample_endpoint() -> USBEndpoint {
    USBEndpoint {
        address: EndpointAddress { address: 0x81, number: 1, direction: Direction::In },
        transfer_type: TransferType::Bulk,
        sync_type: SyncType::NoSync,
        usage_type: UsageType::Data,
        max_packet_size: 64,
        interval: 0,
    }
}

#[test]
fn test_connector_is_corner_only_for_last() {
    assert_eq!(connector_icon(0, 3), Icon::TreeEdge);
    assert_eq!(connector_icon(1, 3), Icon::TreeEdge);
    assert_eq!(connector_icon(2, 3), Icon::TreeCorner);
    assert_eq!(connector_icon(0, 1), Icon::TreeCorner);
}

#[test]
fn test_child_prefix_extends_parent() {
    let mut settings = PrintSettings::default();
    settings.tree = true;
    let trunk = TreeData::default();
    let level1 = generate_tree_data(&trunk, 2, 0, &settings);
    assert_eq!(level1.depth, 1);
    assert_eq!(level1.prefix, "");
    // the parent at index zero of two still has a sibling below it
    let level2 = generate_tree_data(&level1, 3, 0, &settings);
    assert_eq!(level2.depth, 2);
    assert_eq!(level2.prefix, "|   ");
    assert!(level2.prefix.starts_with(&level1.prefix));
    // the parent that is the last of its batch leaves a blank
    let level2_last = generate_tree_data(&level1, 3, 1, &settings);
    assert_eq!(level2_last.prefix, "    ");
    // one level further keeps the whole ancestor prefix
    let level3 = generate_tree_data(&level2, 1, 0, &settings);
    assert!(level3.prefix.starts_with(&level2.prefix));
    assert!(level3.prefix.len() >= level2.prefix.len());
}

#[test]
fn test_device_padding_is_tight_maximum() {
    let d1 = sample_device("ab", 1, vec![]);
    let d2 = sample_device("abcdef", 2, vec![]);
    let refs = vec![&d1, &d2];
    let pad = DeviceBlocks::generate_padding(&refs);
    let mut name_width = None;
    let mut serial_width = None;
    for (block, width) in &pad {
        if *block == DeviceBlocks::Name {
            name_width = Some(*width);
        }
        if *block == DeviceBlocks::Serial {
            serial_width = Some(*width);
        }
    }
    // widest name wins over the four-character heading
    assert_eq!(name_width, Some(6));
    // no serials: the heading length is the width
    assert_eq!(serial_width, Some("Serial".len()));
}

#[test]
fn test_endpoint_lines_flat() {
    let endpoints = vec![sample_endpoint()];
    let blocks = EndpointBlocks::default_blocks(false);
    let settings = PrintSettings::default();
    let tree = TreeData::default();
    let lines = print_endpoints(&endpoints, &blocks, &settings, &tree);
    let cells = vec![
        " 1".to_string(),
        "In ".to_string(),
        "Bulk     ".to_string(),
        "None ".to_string(),
        "Data  ".to_string(),
        "64    ".to_string(),
    ];
    let expected = format!("{}{}", " ".repeat(6), cells.join(" "));
    assert_eq!(lines.len(), 1);
    assert_eq!(lines[0], expected);
}

#[test]
fn test_tree_render_connectors() {
    let bus = USBBus {
        name: String::from("Root Bus"),
        host_controller: String::from("xhci"),
        bus_number: 1,
        pci_vendor: None,
        pci_device: None,
        pci_revision: None,
        devices: Some(vec![
            sample_device("first", 1, vec![1]),
            sample_device("second", 2, vec![2]),
        ]),
    };
    let sp = SPUSBDataType { buses: vec![bus] };
    let mut settings = PrintSettings::default();
    settings.tree = true;
    let lines = print_sp_usb(&sp, &settings);
    // bus line, two device lines, blank separator
    assert_eq!(lines.len(), 4);
    assert!(lines[0].starts_with("/: "));
    assert!(lines[1].starts_with("|__ o "));
    assert!(lines[2].starts_with("\\__ o "));
    assert_eq!(lines[3], "");
}

#[test]
fn test_flattened_device_line() {
    let d = sample_device("gadget", 5, vec![1]);
    let refs = vec![&d];
    let settings = PrintSettings::default();
    let lines = print_flattened_devices(&refs, &settings);
    assert_eq!(lines.len(), 1);
    // default flat columns: bus, number, vendor id, product id, name,
    // serial (dash), speed (dash); the icon column is absent without a
    // theme
    // serial is a dash padded to the six-character heading, speed a dash
    // right-aligned in ten
    assert_eq!(lines[0], "  1   5 0x1d6b 0x0003 gadget -               -");
}

#[test]
fn test_heading_row_present() {
    let d = sample_device("gadget", 5, vec![1]);
    let refs = vec![&d];
    let mut settings = PrintSettings::default();
    settings.headings = true;
    let lines = print_flattened_devices(&refs, &settings);
    assert_eq!(lines.len(), 2);
    assert!(lines[0].contains("Name"));
    assert!(lines[0].contains("VID"));
}

#[test]
fn test_apply_colour_without_role_is_identity() {
    assert_eq!(apply_colour("text", &None), "text");
    let coloured = apply_colour("text", &Some(Colour::Red));
    assert!(coloured.len() >= "text".len());
}

#[test]
fn test_bold_underline_keeps_text_length() {
    let styled = bold_underline("Heading");
    assert!(styled.len() >= "Heading".len());
}

#[test]
fn test_configuration_attributes_string() {
    let c = USBConfiguration {
        name: String::from("cfg"),
        number: 1,
        attributes: vec![ConfigAttributes::SelfPowered, ConfigAttributes::RemoteWakeup],
        max_power: 100,
        interfaces: vec![],
    };
    assert_eq!(c.attributes_string(), "self-powered remote-wakeup");
}

#[test]
fn test_themed_tree_glyphs() {
    let bus = USBBus {
        name: String::from("Root Bus"),
        host_controller: String::from("xhci"),
        bus_number: 1,
        pci_vendor: None,
        pci_device: None,
        pci_revision: None,
        devices: Some(vec![
            sample_device("first", 1, vec![1]),
            sample_device("second", 2, vec![2]),
        ]),
    };
    let sp = SPUSBDataType { buses: vec![bus] };
    let mut settings = PrintSettings::default();
    settings.tree = true;
    settings.icons = Some(cyme::icon::example_theme());
    let lines = print_sp_usb(&sp, &settings);
    assert!(lines[1].starts_with("\u{251c}\u{2500}\u{2500} "));
    assert!(lines[2].starts_with("\u{2514}\u{2500}\u{2500} "));
}

#[test]
fn test_verbose_levels_add_lines() {
    let endpoint = sample_endpoint();
    let interface = cyme::usb::USBInterface {
        name: String::from("if0"),
        number: 0,
        path: String::from("1-1:1.0"),
        class: String::from("Vendor Specific"),
        sub_class: 0,
        protocol: 0,
        alt_setting: 0,
        driver: None,
        syspath: None,
        endpoints: vec![endpoint],
    };
    let config = USBConfiguration {
        name: String::from("cfg"),
        number: 1,
        attributes: vec![],
        max_power: 100,
        interfaces: vec![interface],
    };
    let mut device = sample_device("gadget", 1, vec![1]);
    device.extra = Some(cyme::system_profiler::USBDeviceExtra {
        syspath: None,
        driver: None,
        product_name: None,
        vendor: None,
        configurations: vec![config],
    });
    let refs = vec![&device];
    let mut settings = PrintSettings::default();
    // verbosity zero: just the device line
    assert_eq!(print_flattened_devices(&refs, &settings).len(), 1);
    // one: adds the configuration
    settings.verbosity = 1;
    assert_eq!(print_flattened_devices(&refs, &settings).len(), 2);
    // two: adds the interface
    settings.verbosity = 2;
    assert_eq!(print_flattened_devices(&refs, &settings).len(), 3);
    // three: adds the endpoint
    settings.verbosity = 3;
    assert_eq!(print_flattened_devices(&refs, &settings).len(), 4);
}

#[test]
fn test_bus_grouped_blocks() {
    let bus = USBBus {
        name: String::from("Root Bus"),
        host_controller: String::from("xhci"),
        bus_number: 1,
        pci_vendor: None,
        pci_device: None,
        pci_revision: None,
        devices: None,
    };
    let d = sample_device("gadget", 1, vec![1]);
    let settings = PrintSettings::default();
    let lines = cyme::display::print_bus_grouped(vec![(&bus, vec![&d])], &settings);
    // bus line, device line, blank separator
    assert_eq!(lines.len(), 3);
    assert!(lines[0].contains("Root Bus"));
    assert!(lines[1].contains("gadget"));
    assert_eq!(lines[2], "");
}

#[test]
fn test_device_port_path() {
    let d = sample_device("gadget", 5, vec![2, 3]);
    assert_eq!(d.port_path(), "1-2.3");
    let trunk = sample_device("root", 1, vec![]);
    assert_eq!(trunk.port_path(), "1-0");
    assert_eq!(trunk.get_branch_position(), 0);
    assert_eq!(d.get_branch_position(), 3);
}
