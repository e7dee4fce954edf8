//! Devices on the wire.

use extender::protocol::device::{
    decode_device_with_interfaces, encode_device_with_interfaces, UsbDevice, UsbInterface,
    USB_DEVICE_WIRE_SIZE, USB_INTERFACE_WIRE_SIZE,
};
use extender::protocol::wire::WireFormat;

fn make_test_device() -> UsbDevice {
    UsbDevice {
        path: UsbDevice::path_from_str("/sys/devices/pci0000:00/usb1/1-1"),
        busid: UsbDevice::busid_from_str("1-1").unwrap(),
        busnum: 1,
        devnum: 2,
        speed: 3, // high speed
        id_vendor: 0x1234,
        id_product: 0x5678,
        bcd_device: 0x0100,
        device_class: 0,
        device_subclass: 0,
        device_protocol: 0,
        configuration_value: 1,
        num_configurations: 1,
        num_interfaces: 2,
        interfaces: vec![
            UsbInterface {
                interface_class: 0x03,
                interface_subclass: 0x01,
                interface_protocol: 0x02,
                padding: 0,
            },
            UsbInterface {
                interface_class: 0x08,
                interface_subclass: 0x06,
                interface_protocol: 0x50,
                padding: 0,
            },
        ],
    }
}

#[test]
fn test_busid_string() {
    let device = make_test_device();
    assert_eq!(device.busid_string(), "1-1");
}

#[test]
fn test_path_string() {
    let device = make_test_device();
    assert_eq!(device.path_string(), "/sys/devices/pci0000:00/usb1/1-1");
}

#[test]
fn test_busid_from_str_valid() {
    let busid = UsbDevice::busid_from_str("1-4.2").unwrap();
    assert_eq!(&busid[..5], b"1-4.2");
    assert_eq!(busid[5], 0);
}

#[test]
fn test_busid_from_str_too_long() {
    let long = "a".repeat(32);
    assert!(UsbDevice::busid_from_str(&long).is_err());
}

#[test]
fn test_device_roundtrip() {
    let device = make_test_device();
    let mut buf = Vec::new();
    device.encode(&mut buf);
    assert_eq!(buf.len(), USB_DEVICE_WIRE_SIZE);

    let mut cursor = &buf[..];
    let decoded = UsbDevice::decode(&mut cursor).unwrap();
    // Interfaces are not included in the basic decode
    assert_eq!(decoded.busnum, device.busnum);
    assert_eq!(decoded.id_vendor, device.id_vendor);
    assert_eq!(decoded.id_product, device.id_product);
}

#[test]
fn test_device_with_interfaces_roundtrip() {
    let device = make_test_device();
    let mut buf = Vec::new();
    encode_device_with_interfaces(&device, &mut buf);
    assert_eq!(
        buf.len(),
        USB_DEVICE_WIRE_SIZE + 2 * USB_INTERFACE_WIRE_SIZE
    );

    let mut cursor = &buf[..];
    let decoded = decode_device_with_interfaces(&mut cursor).unwrap();
    assert_eq!(decoded, device);
}

#[test]
fn test_interface_roundtrip() {
    let iface = UsbInterface {
        interface_class: 0x03,
        interface_subclass: 0x01,
        interface_protocol: 0x02,
        padding: 0,
    };
    let mut buf = Vec::new();
    iface.encode(&mut buf);
    assert_eq!(buf.len(), USB_INTERFACE_WIRE_SIZE);

    let mut cursor = &buf[..];
    let decoded = UsbInterface::decode(&mut cursor).unwrap();
    assert_eq!(decoded, iface);
}
