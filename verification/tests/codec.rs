//! Messages that are written and read again.

use bytes::Bytes;
use extender::protocol::codec::{
    read_op_message, read_urb_message, write_op_message, write_urb_message, ReadStep,
};
use extender::protocol::codes::Command;
use extender::protocol::debug::urb_string;
use extender::protocol::device::{UsbDevice, UsbInterface};
use extender::protocol::discovery::{
    OpMessage, OpRepDevlist, OpRepImport, OpReqDevlist, OpReqImport,
};
use extender::protocol::error::ProtocolError;
use extender::protocol::urb::{
    CmdSubmit, CmdUnlink, IsoPacketDescriptor, RetSubmit, RetUnlink, UrbMessage,
    UsbipHeaderBasic, ECONNRESET,
};
use extender::protocol::wire::WireFormat;

fn device(interfaces: Vec<UsbInterface>) -> UsbDevice {
    UsbDevice {
        path: UsbDevice::path_from_str("/sys/devices/usb1/1-1"),
        busid: UsbDevice::busid_from_str("1-1").unwrap(),
        busnum: 1,
        devnum: 2,
        speed: 3,
        id_vendor: 0x1234,
        id_product: 0x5678,
        bcd_device: 0x0100,
        device_class: 0,
        device_subclass: 0,
        device_protocol: 0,
        configuration_value: 1,
        num_configurations: 1,
        num_interfaces: interfaces.len() as u8,
        interfaces,
    }
}

/// Read a message in the portions that are asked for.
fn read_op(buf: &[u8]) -> OpMessage {
    let mut have = 0;
    loop {
        match read_op_message(&buf[..have]) {
            ReadStep::NeedMore(n) => {
                assert!(n > 0);
                have += n;
            }
            ReadStep::Message(m) => {
                assert_eq!(have, buf.len());
                return m;
            }
            ReadStep::Failed(e) => panic!("unexpected {e:?}"),
        }
    }
}

fn read_urb(buf: &[u8]) -> UrbMessage {
    let mut have = 0;
    loop {
        match read_urb_message(&buf[..have]) {
            ReadStep::NeedMore(n) => {
                assert!(n > 0);
                have += n;
            }
            ReadStep::Message(m) => {
                assert_eq!(have, buf.len());
                return m;
            }
            ReadStep::Failed(e) => panic!("unexpected {e:?}"),
        }
    }
}

#[test]
fn test_async_req_devlist_roundtrip() {
    let msg = OpMessage::ReqDevlist(OpReqDevlist);
    let mut buf = Vec::new();
    write_op_message(&mut buf, &msg);
    assert_eq!(buf.len(), 8);
    assert_eq!(read_op(&buf), msg);
}

#[test]
fn test_async_rep_devlist_roundtrip() {
    let msg = OpMessage::RepDevlist(OpRepDevlist {
        status: 0,
        devices: vec![device(vec![UsbInterface {
            interface_class: 0x03,
            interface_subclass: 0x01,
            interface_protocol: 0x02,
            padding: 0,
        }])],
    });
    let mut buf = Vec::new();
    write_op_message(&mut buf, &msg);
    assert_eq!(read_op(&buf), msg);
}

#[test]
fn test_async_req_import_roundtrip() {
    let msg = OpMessage::ReqImport(OpReqImport {
        busid: UsbDevice::busid_from_str("1-4.2").unwrap(),
    });
    let mut buf = Vec::new();
    write_op_message(&mut buf, &msg);
    assert_eq!(buf.len(), 40);
    assert_eq!(read_op(&buf), msg);
}

#[test]
fn test_async_rep_import_success_roundtrip() {
    let msg = OpMessage::RepImport(Box::new(OpRepImport {
        status: 0,
        device: Some(device(vec![])),
    }));
    let mut buf = Vec::new();
    write_op_message(&mut buf, &msg);
    assert_eq!(read_op(&buf), msg);
}

#[test]
fn test_async_rep_import_error_roundtrip() {
    let msg = OpMessage::RepImport(Box::new(OpRepImport {
        status: 1,
        device: None,
    }));
    let mut buf = Vec::new();
    write_op_message(&mut buf, &msg);
    assert_eq!(read_op(&buf), msg);
}

fn header(command: Command, seqnum: u32, direction: u32, ep: u32) -> UsbipHeaderBasic {
    UsbipHeaderBasic {
        command: command.code(),
        seqnum,
        devid: 2,
        direction,
        ep,
    }
}

#[test]
fn test_async_cmd_submit_roundtrip() {
    let msg = UrbMessage::CmdSubmit(CmdSubmit {
        header: header(Command::CmdSubmit, 1, 0, 1),
        transfer_flags: 0,
        transfer_buffer_length: 4,
        start_frame: 0,
        number_of_packets: 0xFFFFFFFF,
        interval: 0,
        setup: [0; 8],
        transfer_buffer: Bytes::from_static(&[0xDE, 0xAD, 0xBE, 0xEF]),
        iso_packet_descriptors: vec![],
    });
    let mut buf = Vec::new();
    write_urb_message(&mut buf, &msg);
    assert_eq!(read_urb(&buf), msg);
    assert_eq!(urb_string(&msg), format!("{msg:?}"));
}

#[test]
fn test_async_ret_submit_with_data() {
    let data = vec![1, 2, 3, 4, 5, 6, 7, 8];
    let msg = UrbMessage::RetSubmit(RetSubmit {
        header: header(Command::RetSubmit, 1, 1, 0),
        status: 0,
        actual_length: 8,
        start_frame: 0,
        number_of_packets: 0xFFFFFFFF,
        error_count: 0,
        transfer_buffer: Bytes::from(data),
        iso_packet_descriptors: vec![],
    });
    let mut buf = Vec::new();
    write_urb_message(&mut buf, &msg);
    assert_eq!(read_urb(&buf), msg);
    assert_eq!(urb_string(&msg), format!("{msg:?}"));
}

#[test]
fn test_async_cmd_unlink_roundtrip() {
    let msg = UrbMessage::CmdUnlink(CmdUnlink {
        header: header(Command::CmdUnlink, 5, 0, 0),
        unlink_seqnum: 3,
    });
    let mut buf = Vec::new();
    write_urb_message(&mut buf, &msg);
    assert_eq!(read_urb(&buf), msg);
    assert_eq!(urb_string(&msg), format!("{msg:?}"));
}

#[test]
fn test_async_ret_unlink_roundtrip() {
    let msg = UrbMessage::RetUnlink(RetUnlink {
        header: header(Command::RetUnlink, 5, 0, 0),
        status: ECONNRESET,
    });
    let mut buf = Vec::new();
    write_urb_message(&mut buf, &msg);
    assert_eq!(read_urb(&buf), msg);
    assert_eq!(urb_string(&msg), format!("{msg:?}"));
}

#[test]
fn test_async_partial_read_simulation() {
    // The bytes arrive one by one.
    let mut buf = Vec::new();
    OpReqDevlist.encode(&mut buf);
    for have in 0..buf.len() {
        assert!(matches!(
            read_op_message(&buf[..have]),
            ReadStep::NeedMore(_)
        ));
    }
    match read_op_message(&buf) {
        ReadStep::Message(m) => assert_eq!(m, OpMessage::ReqDevlist(OpReqDevlist)),
        other => panic!("unexpected {other:?}"),
    }
}

#[test]
fn packets_come_with_their_descriptors() {
    let msg = UrbMessage::RetSubmit(RetSubmit {
        header: header(Command::RetSubmit, 9, 1, 2),
        status: -32,
        actual_length: 3,
        start_frame: 7,
        number_of_packets: 2,
        error_count: 1,
        transfer_buffer: Bytes::from(vec![b'a', b'"', 0]),
        iso_packet_descriptors: vec![
            IsoPacketDescriptor {
                offset: 0,
                length: 2,
                actual_length: 2,
                status: 0,
            },
            IsoPacketDescriptor {
                offset: 2,
                length: 2,
                actual_length: 1,
                status: 0xFFFF_FFED,
            },
        ],
    });
    let mut buf = Vec::new();
    write_urb_message(&mut buf, &msg);
    assert_eq!(buf.len(), 48 + 3 + 32);
    assert_eq!(read_urb(&buf), msg);
    assert_eq!(urb_string(&msg), format!("{msg:?}"));
}

#[test]
fn every_byte_has_its_text() {
    let all: Vec<u8> = (0..=255).collect();
    let msg = UrbMessage::CmdSubmit(CmdSubmit {
        header: header(Command::CmdSubmit, 1, 0, 1),
        transfer_flags: 1,
        transfer_buffer_length: 256,
        start_frame: 2,
        number_of_packets: 3,
        interval: 4,
        setup: [1, 2, 3, 4, 5, 6, 7, 8],
        transfer_buffer: Bytes::from(all),
        iso_packet_descriptors: vec![],
    });
    assert_eq!(urb_string(&msg), format!("{msg:?}"));
}

#[test]
fn bytes_that_are_no_message() {
    assert!(matches!(
        read_op_message(&[1, 0x10, 0x80, 5, 0, 0, 0, 0]),
        ReadStep::Failed(ProtocolError::UnsupportedVersion(0x0110))
    ));
    assert!(matches!(
        read_op_message(&[1, 0x11, 0x12, 0x34, 0, 0, 0, 0]),
        ReadStep::Failed(ProtocolError::InvalidOpCode(0x1234))
    ));
    let mut urb = vec![0u8; 48];
    urb[3] = 9;
    assert!(matches!(
        read_urb_message(&urb),
        ReadStep::Failed(ProtocolError::InvalidCommand(9))
    ));
}
