//! The virtual devices of macOS.

use extender::client::vhci_macos::{
    device_type_from_usb, io_connect_t, io_object_t, io_service_t, kern_return_t, mach_port_t,
    PendingRequest, DEVICE_TYPE_AUDIO, DEVICE_TYPE_HID, DEVICE_TYPE_NETWORK, DEVICE_TYPE_SERIAL,
    DEVICE_TYPE_STORAGE, SELECTOR_CONFIGURE_DEVICE, SELECTOR_CREATE_DEVICE,
    SELECTOR_DESTROY_DEVICE, SELECTOR_GET_DEVICE_COUNT, SELECTOR_GET_PENDING_OUTPUT,
    SELECTOR_SUBMIT_INPUT,
};

#[test]
fn test_device_type_from_usb_device_class() {
    assert_eq!(device_type_from_usb(0x03, &[]), DEVICE_TYPE_HID);
    assert_eq!(device_type_from_usb(0x08, &[]), DEVICE_TYPE_STORAGE);
    assert_eq!(device_type_from_usb(0x02, &[]), DEVICE_TYPE_SERIAL);
    assert_eq!(device_type_from_usb(0x0A, &[]), DEVICE_TYPE_SERIAL);
    assert_eq!(device_type_from_usb(0x01, &[]), DEVICE_TYPE_AUDIO);
}

#[test]
fn test_device_type_from_usb_interface_class() {
    assert_eq!(device_type_from_usb(0x00, &[0x03]), DEVICE_TYPE_HID);
    assert_eq!(device_type_from_usb(0x00, &[0x08]), DEVICE_TYPE_STORAGE);
    assert_eq!(device_type_from_usb(0x00, &[0x02]), DEVICE_TYPE_SERIAL);
    assert_eq!(device_type_from_usb(0x00, &[0x01]), DEVICE_TYPE_AUDIO);
}

#[test]
fn test_device_type_from_usb_composite_network() {
    // Composite device (0xEF) with CDC interface (0x02) -> network
    assert_eq!(device_type_from_usb(0xEF, &[0x02]), DEVICE_TYPE_NETWORK);
}

#[test]
fn test_device_type_from_usb_default_hid() {
    // Unknown class codes default to HID.
    assert_eq!(device_type_from_usb(0xFF, &[0xFF]), DEVICE_TYPE_HID);
    assert_eq!(device_type_from_usb(0x00, &[]), DEVICE_TYPE_HID);
}

#[test]
fn test_device_type_first_match_wins() {
    // When multiple interface classes are present, the first recognized one wins.
    assert_eq!(
        device_type_from_usb(0x00, &[0x03, 0x08]),
        DEVICE_TYPE_HID
    );
    assert_eq!(
        device_type_from_usb(0x00, &[0x08, 0x03]),
        DEVICE_TYPE_STORAGE
    );
}

#[test]
fn test_device_type_device_class_takes_priority() {
    // Device class should take priority over interface classes.
    assert_eq!(
        device_type_from_usb(0x03, &[0x08]),
        DEVICE_TYPE_HID
    );
}

#[test]
fn test_selector_values() {
    assert_eq!(SELECTOR_CREATE_DEVICE, 0);
    assert_eq!(SELECTOR_DESTROY_DEVICE, 1);
    assert_eq!(SELECTOR_SUBMIT_INPUT, 2);
    assert_eq!(SELECTOR_GET_PENDING_OUTPUT, 3);
    assert_eq!(SELECTOR_GET_DEVICE_COUNT, 4);
    assert_eq!(SELECTOR_CONFIGURE_DEVICE, 5);
}

#[test]
fn test_pending_request_struct() {
    let req = PendingRequest {
        device_id: 1,
        endpoint: 2,
        request_id: 42,
        data: vec![0xDE, 0xAD],
    };
    assert_eq!(req.device_id, 1);
    assert_eq!(req.endpoint, 2);
    assert_eq!(req.request_id, 42);
    assert_eq!(req.data, vec![0xDE, 0xAD]);
}

/// Verify that the IOKit type sizes match expected C ABI sizes.
#[test]
fn test_iokit_type_sizes() {
    assert_eq!(std::mem::size_of::<io_service_t>(), 4);
    assert_eq!(std::mem::size_of::<io_connect_t>(), 4);
    assert_eq!(std::mem::size_of::<io_object_t>(), 4);
    assert_eq!(std::mem::size_of::<mach_port_t>(), 4);
    assert_eq!(std::mem::size_of::<kern_return_t>(), 4);
}
