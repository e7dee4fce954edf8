//! Messages of discovery and import on the wire.

use extender::protocol::device::{UsbDevice, UsbInterface, USB_DEVICE_WIRE_SIZE};
use extender::protocol::discovery::{
    OpRepDevlist, OpRepImport, OpReqDevlist, OpReqImport, OP_HEADER_SIZE,
};
use extender::protocol::error::ProtocolError;
use extender::protocol::wire::WireFormat;

#[test]
fn test_req_devlist_encode_size() {
    let msg = OpReqDevlist;
    let mut buf = Vec::new();
    msg.encode(&mut buf);
    assert_eq!(buf.len(), 8);
}

#[test]
fn test_req_devlist_encode_bytes() {
    let msg = OpReqDevlist;
    let mut buf = Vec::new();
    msg.encode(&mut buf);
    // version = 0x0111
    assert_eq!(buf[0], 0x01);
    assert_eq!(buf[1], 0x11);
    // command = 0x8005
    assert_eq!(buf[2], 0x80);
    assert_eq!(buf[3], 0x05);
    // status = 0x00000000
    assert_eq!(&buf[4..8], &[0, 0, 0, 0]);
}

#[test]
fn test_req_devlist_roundtrip() {
    let msg = OpReqDevlist;
    let mut buf = Vec::new();
    msg.encode(&mut buf);
    let mut cursor = &buf[..];
    let decoded = OpReqDevlist::decode(&mut cursor).unwrap();
    assert_eq!(decoded, msg);
}

#[test]
fn test_rep_devlist_empty() {
    let msg = OpRepDevlist {
        status: 0,
        devices: vec![],
    };
    let mut buf = Vec::new();
    msg.encode(&mut buf);
    // 8 (header) + 4 (num_devices) = 12
    assert_eq!(buf.len(), 12);

    let mut cursor = &buf[..];
    let decoded = OpRepDevlist::decode(&mut cursor).unwrap();
    assert_eq!(decoded, msg);
}

fn make_test_device() -> UsbDevice {
    UsbDevice {
        path: UsbDevice::path_from_str("/sys/devices/usb1/1-1"),
        busid: UsbDevice::busid_from_str("1-1").unwrap(),
        busnum: 1,
        devnum: 2,
        speed: 3,
        id_vendor: 0x1234,
        id_product: 0x5678,
        bcd_device: 0x0100,
        device_class: 0,
        device_subclass: 0,
        device_protocol: 0,
        configuration_value: 1,
        num_configurations: 1,
        num_interfaces: 1,
        interfaces: vec![UsbInterface {
            interface_class: 0x03,
            interface_subclass: 0x01,
            interface_protocol: 0x02,
            padding: 0,
        }],
    }
}

#[test]
fn test_rep_devlist_with_devices() {
    let msg = OpRepDevlist {
        status: 0,
        devices: vec![make_test_device()],
    };
    let mut buf = Vec::new();
    msg.encode(&mut buf);

    let mut cursor = &buf[..];
    let decoded = OpRepDevlist::decode(&mut cursor).unwrap();
    assert_eq!(decoded, msg);
}

#[test]
fn test_req_import_size() {
    let busid = UsbDevice::busid_from_str("1-4.2").unwrap();
    let msg = OpReqImport { busid };
    let mut buf = Vec::new();
    msg.encode(&mut buf);
    assert_eq!(buf.len(), 40);
}

#[test]
fn test_req_import_roundtrip() {
    let busid = UsbDevice::busid_from_str("1-4.2").unwrap();
    let msg = OpReqImport { busid };
    let mut buf = Vec::new();
    msg.encode(&mut buf);
    let mut cursor = &buf[..];
    let decoded = OpReqImport::decode(&mut cursor).unwrap();
    assert_eq!(decoded, msg);
}

#[test]
fn test_rep_import_success() {
    let device = UsbDevice {
        path: UsbDevice::path_from_str("/sys/devices/usb1/1-1"),
        busid: UsbDevice::busid_from_str("1-1").unwrap(),
        busnum: 1,
        devnum: 2,
        speed: 3,
        id_vendor: 0x1234,
        id_product: 0x5678,
        bcd_device: 0x0100,
        device_class: 0,
        device_subclass: 0,
        device_protocol: 0,
        configuration_value: 1,
        num_configurations: 1,
        num_interfaces: 0,
        interfaces: vec![],
    };
    let msg = OpRepImport {
        status: 0,
        device: Some(device),
    };
    let mut buf = Vec::new();
    msg.encode(&mut buf);
    assert_eq!(buf.len(), OP_HEADER_SIZE + USB_DEVICE_WIRE_SIZE);

    let mut cursor = &buf[..];
    let decoded = OpRepImport::decode(&mut cursor).unwrap();
    assert_eq!(decoded, msg);
}

#[test]
fn test_rep_import_error() {
    let msg = OpRepImport {
        status: 1,
        device: None,
    };
    let mut buf = Vec::new();
    msg.encode(&mut buf);
    assert_eq!(buf.len(), OP_HEADER_SIZE);

    let mut cursor = &buf[..];
    let decoded = OpRepImport::decode(&mut cursor).unwrap();
    assert_eq!(decoded, msg);
}

#[test]
fn test_wrong_version_rejected() {
    let mut buf = Vec::new();
    buf.extend_from_slice(&[0x02, 0x00]); // wrong version
    buf.extend_from_slice(&[0x80, 0x05]); // OpReqDevlist
    buf.extend_from_slice(&[0, 0, 0, 0]); // status

    let mut cursor = &buf[..];
    let result = OpReqDevlist::decode(&mut cursor);
    assert!(matches!(
        result,
        Err(ProtocolError::UnsupportedVersion(0x0200))
    ));
}

#[test]
fn test_wrong_opcode_rejected() {
    let mut buf = Vec::new();
    buf.extend_from_slice(&[0x01, 0x11]); // correct version
    buf.extend_from_slice(&[0x00, 0x05]); // OpRepDevlist, but we're decoding OpReqDevlist
    buf.extend_from_slice(&[0, 0, 0, 0]); // status

    let mut cursor = &buf[..];
    let result = OpReqDevlist::decode(&mut cursor);
    assert!(matches!(result, Err(ProtocolError::InvalidOpCode(0x0005))));
}

#[test]
fn test_buffer_too_short() {
    let buf: &[u8] = &[0x01, 0x11]; // only 2 bytes
    let mut cursor = buf;
    let result = OpReqDevlist::decode(&mut cursor);
    assert!(matches!(
        result,
        Err(ProtocolError::BufferTooShort {
            needed: 8,
            available: 2
        })
    ));
}
