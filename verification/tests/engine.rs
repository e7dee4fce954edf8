//! Attaching devices.

use extender::client::engine::build_device_descriptor;
use extender::client::vhci_windows::ctl_code;
use extender::protocol::device::UsbDevice;

#[test]
fn test_windows_ioctl_plugin_hardware() {
    assert_eq!(ctl_code(1), 0x0022_0004);
}

#[test]
fn test_windows_ioctl_unplug_hardware() {
    assert_eq!(ctl_code(2), 0x0022_0008);
}

#[test]
fn test_windows_ioctl_get_imported() {
    assert_eq!(ctl_code(3), 0x0022_000C);
}

#[test]
fn test_windows_ctl_code_formula() {
    // Verify the formula: (device_type << 16) | (function << 2)
    // with device_type = FILE_DEVICE_UNKNOWN = 0x22
    for func in 0..16u32 {
        let code = ctl_code(func);
        assert_eq!(code >> 16, 0x22, "device type should be 0x22");
        assert_eq!((code >> 2) & 0xFFF, func, "function number mismatch");
        assert_eq!(code & 0x3, 0, "METHOD_BUFFERED should be 0");
    }
}

#[test]
fn test_build_device_descriptor_high_speed() {
    let dev = UsbDevice {
        path: UsbDevice::path_from_str("/sys/devices/usb1/1-1"),
        busid: UsbDevice::busid_from_str("1-1").unwrap(),
        busnum: 1,
        devnum: 2,
        speed: 3, // high-speed
        id_vendor: 0x1234,
        id_product: 0x5678,
        bcd_device: 0x0100,
        device_class: 0x03,
        device_subclass: 0x01,
        device_protocol: 0x02,
        configuration_value: 1,
        num_configurations: 1,
        num_interfaces: 0,
        interfaces: vec![],
    };

    let desc = build_device_descriptor(&dev);
    assert_eq!(desc[0], 18); // bLength
    assert_eq!(desc[1], 0x01); // bDescriptorType
    assert_eq!(desc[2], 0x00); // bcdUSB low
    assert_eq!(desc[3], 0x02); // bcdUSB high (USB 2.0)
    assert_eq!(desc[4], 0x03); // bDeviceClass
    assert_eq!(desc[5], 0x01); // bDeviceSubClass
    assert_eq!(desc[6], 0x02); // bDeviceProtocol
    assert_eq!(desc[7], 64); // bMaxPacketSize0
    assert_eq!(desc[8], 0x34); // idVendor low
    assert_eq!(desc[9], 0x12); // idVendor high
    assert_eq!(desc[10], 0x78); // idProduct low
    assert_eq!(desc[11], 0x56); // idProduct high
    assert_eq!(desc[17], 1); // bNumConfigurations
}

#[test]
fn test_build_device_descriptor_super_speed() {
    let dev = UsbDevice {
        path: UsbDevice::path_from_str("/sys/devices/usb1/1-1"),
        busid: UsbDevice::busid_from_str("1-1").unwrap(),
        busnum: 1,
        devnum: 1,
        speed: 5, // super-speed
        id_vendor: 0xAAAA,
        id_product: 0xBBBB,
        bcd_device: 0x0200,
        device_class: 0x08,
        device_subclass: 0x06,
        device_protocol: 0x50,
        configuration_value: 1,
        num_configurations: 1,
        num_interfaces: 0,
        interfaces: vec![],
    };

    let desc = build_device_descriptor(&dev);
    assert_eq!(desc[2], 0x00); // bcdUSB low
    assert_eq!(desc[3], 0x03); // bcdUSB high (USB 3.0)
}
