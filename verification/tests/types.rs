//! Devices as a client sees them.

use extender::client::types::{PortStatus, RemoteDevice};
use extender::protocol::device::{UsbDevice, UsbInterface};

#[test]
fn test_remote_device_from_usb_device() {
    let dev = UsbDevice {
        path: UsbDevice::path_from_str("/sys/devices/usb1/1-1"),
        busid: UsbDevice::busid_from_str("1-1").unwrap(),
        busnum: 1,
        devnum: 2,
        speed: 3,
        id_vendor: 0x1234,
        id_product: 0x5678,
        bcd_device: 0x0100,
        device_class: 0,
        device_subclass: 0,
        device_protocol: 0,
        configuration_value: 1,
        num_configurations: 1,
        num_interfaces: 2,
        interfaces: vec![
            UsbInterface {
                interface_class: 0x03,
                interface_subclass: 0x01,
                interface_protocol: 0x02,
                padding: 0,
            },
            UsbInterface {
                interface_class: 0x08,
                interface_subclass: 0x06,
                interface_protocol: 0x50,
                padding: 0,
            },
        ],
    };

    let remote = RemoteDevice::from(&dev);
    assert_eq!(remote.busid, "1-1");
    assert_eq!(remote.path, "/sys/devices/usb1/1-1");
    assert_eq!(remote.id_vendor, 0x1234);
    assert_eq!(remote.id_product, 0x5678);
    assert_eq!(remote.speed, 3);
    assert_eq!(remote.num_interfaces, 2);
    assert_eq!(remote.interface_classes, vec![0x03, 0x08]);
}

#[test]
fn test_port_status_from_raw() {
    assert_eq!(PortStatus::from_raw(4), PortStatus::Free);
    assert_eq!(PortStatus::from_raw(6), PortStatus::InUse);
    assert_eq!(PortStatus::from_raw(99), PortStatus::Unknown(99));
    assert!(PortStatus::Free.is_free());
    assert!(!PortStatus::InUse.is_free());
}
