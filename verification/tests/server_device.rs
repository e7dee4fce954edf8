//! Devices of this host.

use extender::server::device::{
    filter_devices, format_bus_id, glob_match, DeviceFilter, LocalUsbDevice, LocalUsbInterface,
};

fn make_device(
    bus_id: &str,
    vid: u16,
    pid: u16,
    device_class: u8,
    interfaces: Vec<LocalUsbInterface>,
) -> LocalUsbDevice {
    LocalUsbDevice {
        bus_number: 1,
        device_address: 1,
        vendor_id: vid,
        product_id: pid,
        manufacturer: Some("Test Mfr".to_string()),
        product: Some("Test Product".to_string()),
        device_class,
        device_subclass: 0,
        device_protocol: 0,
        bcd_device: 0x0100,
        bus_id: bus_id.to_string(),
        speed: 3,
        num_configurations: 1,
        interfaces,
        port_numbers: vec![1],
    }
}

fn make_iface(class: u8) -> LocalUsbInterface {
    LocalUsbInterface {
        interface_number: 0,
        interface_class: class,
        interface_subclass: 0,
        interface_protocol: 0,
    }
}

#[test]
fn test_glob_exact() {
    assert!(glob_match("1-4.2", "1-4.2"));
    assert!(!glob_match("1-4.2", "1-4.3"));
}

#[test]
fn test_glob_star() {
    assert!(glob_match("1-4.*", "1-4.2"));
    assert!(glob_match("1-4.*", "1-4.2.3"));
    assert!(!glob_match("1-4.*", "1-5.2"));
}

#[test]
fn test_glob_question() {
    assert!(glob_match("1-?", "1-4"));
    assert!(!glob_match("1-?", "1-42"));
}

#[test]
fn test_glob_star_prefix() {
    assert!(glob_match("*", "anything"));
    assert!(glob_match("*-4", "1-4"));
}

#[test]
fn test_filter_by_class_device_level() {
    let devices = vec![
        make_device("1-1", 0x1234, 0x5678, 0x03, vec![]),
        make_device("1-2", 0x1234, 0x5679, 0x08, vec![]),
    ];
    let filter = DeviceFilter {
        device_class: Some(0x03),
        ..Default::default()
    };
    let result = filter_devices(&devices, &filter);
    assert_eq!(result.len(), 1);
    assert_eq!(result[0].bus_id, "1-1");
}

#[test]
fn test_filter_by_class_interface_level() {
    // Device class 0x00 (defined at interface level), but interface is HID (0x03)
    let devices = vec![make_device(
        "1-1",
        0x1234,
        0x5678,
        0x00,
        vec![make_iface(0x03)],
    )];
    let filter = DeviceFilter {
        device_class: Some(0x03),
        ..Default::default()
    };
    let result = filter_devices(&devices, &filter);
    assert_eq!(result.len(), 1);
}

#[test]
fn test_filter_by_vid_pid() {
    let devices = vec![
        make_device("1-1", 0x1234, 0x5678, 0, vec![]),
        make_device("1-2", 0xAAAA, 0xBBBB, 0, vec![]),
    ];
    let filter = DeviceFilter {
        vid_pid: Some((0x1234, 0x5678)),
        ..Default::default()
    };
    let result = filter_devices(&devices, &filter);
    assert_eq!(result.len(), 1);
    assert_eq!(result[0].bus_id, "1-1");
}

#[test]
fn test_filter_by_bus_id_pattern() {
    let devices = vec![
        make_device("1-4.1", 0x1234, 0x5678, 0, vec![]),
        make_device("1-4.2", 0x1234, 0x5679, 0, vec![]),
        make_device("2-1", 0x1234, 0x567A, 0, vec![]),
    ];
    let filter = DeviceFilter {
        bus_id_pattern: Some("1-4.*".to_string()),
        ..Default::default()
    };
    let result = filter_devices(&devices, &filter);
    assert_eq!(result.len(), 2);
}

#[test]
fn test_filter_combined() {
    let devices = vec![
        make_device("1-4.1", 0x1234, 0x5678, 0x03, vec![]),
        make_device("1-4.2", 0x1234, 0x5678, 0x08, vec![]),
        make_device("2-1", 0x1234, 0x5678, 0x03, vec![]),
    ];
    let filter = DeviceFilter {
        device_class: Some(0x03),
        bus_id_pattern: Some("1-4.*".to_string()),
        ..Default::default()
    };
    let result = filter_devices(&devices, &filter);
    assert_eq!(result.len(), 1);
    assert_eq!(result[0].bus_id, "1-4.1");
}

#[test]
fn test_filter_no_match() {
    let devices = vec![make_device("1-1", 0x1234, 0x5678, 0, vec![])];
    let filter = DeviceFilter {
        vid_pid: Some((0xFFFF, 0xFFFF)),
        ..Default::default()
    };
    let result = filter_devices(&devices, &filter);
    assert!(result.is_empty());
}

#[test]
fn test_filter_empty_returns_all() {
    let devices = vec![
        make_device("1-1", 0x1234, 0x5678, 0, vec![]),
        make_device("1-2", 0xAAAA, 0xBBBB, 0, vec![]),
    ];
    let filter = DeviceFilter::default();
    let result = filter_devices(&devices, &filter);
    assert_eq!(result.len(), 2);
}

#[test]
fn test_format_bus_id_single_port() {
    assert_eq!(format_bus_id(1, &[4]), "1-4");
}

#[test]
fn test_format_bus_id_multi_port() {
    assert_eq!(format_bus_id(1, &[4, 2]), "1-4.2");
    assert_eq!(format_bus_id(2, &[1, 3, 7]), "2-1.3.7");
}

#[test]
fn test_format_bus_id_no_ports() {
    assert_eq!(format_bus_id(1, &[]), "1-0");
}

#[test]
fn test_to_protocol_device() {
    let dev = make_device("1-4.2", 0x1234, 0x5678, 0x03, vec![make_iface(0x03)]);
    let proto = dev.to_protocol_device().unwrap();
    assert_eq!(proto.busnum, 1);
    assert_eq!(proto.id_vendor, 0x1234);
    assert_eq!(proto.id_product, 0x5678);
    assert_eq!(proto.device_class, 0x03);
    assert_eq!(proto.busid_string(), "1-4.2");
    assert_eq!(proto.num_interfaces, 1);
    assert_eq!(proto.interfaces[0].interface_class, 0x03);
}
