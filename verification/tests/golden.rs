//! Messages against known bytes, and bytes that are no message.

use bytes::Bytes;
use extender::protocol::codes::Command;
use extender::protocol::device::{UsbDevice, UsbInterface};
use extender::protocol::discovery::{OpRepDevlist, OpRepImport, OpReqDevlist, OpReqImport};
use extender::protocol::error::ProtocolError;
use extender::protocol::urb::{CmdSubmit, CmdUnlink, RetSubmit, RetUnlink, UsbipHeaderBasic};
use extender::protocol::wire::WireFormat;

/// Test OP_REQ_DEVLIST against known byte sequence.
#[test]
fn golden_op_req_devlist() {
    let expected: [u8; 8] = [
        0x01, 0x11, // version 0x0111
        0x80, 0x05, // OP_REQ_DEVLIST
        0x00, 0x00, 0x00, 0x00, // status = 0
    ];
    let msg = OpReqDevlist;
    let mut buf = Vec::new();
    msg.encode(&mut buf);
    assert_eq!(buf, expected);

    let mut cursor = &expected[..];
    let decoded = OpReqDevlist::decode(&mut cursor).unwrap();
    assert_eq!(decoded, OpReqDevlist);
}

/// Test OP_REQ_IMPORT against known byte sequence.
#[test]
fn golden_op_req_import() {
    let mut expected = vec![
        0x01, 0x11, // version 0x0111
        0x80, 0x03, // OP_REQ_IMPORT
        0x00, 0x00, 0x00, 0x00, // status = 0
    ];
    // busid = "1-1" followed by 29 null bytes
    let mut busid_bytes = vec![0u8; 32];
    busid_bytes[0] = b'1';
    busid_bytes[1] = b'-';
    busid_bytes[2] = b'1';
    expected.extend_from_slice(&busid_bytes);

    let busid = UsbDevice::busid_from_str("1-1").unwrap();
    let msg = OpReqImport { busid };
    let mut buf = Vec::new();
    msg.encode(&mut buf);
    assert_eq!(buf, expected);

    let mut cursor = &expected[..];
    let decoded = OpReqImport::decode(&mut cursor).unwrap();
    assert_eq!(decoded.busid, busid);
}

/// Test OP_REP_DEVLIST with zero devices against known byte sequence.
#[test]
fn golden_op_rep_devlist_empty() {
    let expected: [u8; 12] = [
        0x01, 0x11, // version
        0x00, 0x05, // OP_REP_DEVLIST
        0x00, 0x00, 0x00, 0x00, // status = 0
        0x00, 0x00, 0x00, 0x00, // num_devices = 0
    ];
    let msg = OpRepDevlist {
        status: 0,
        devices: vec![],
    };
    let mut buf = Vec::new();
    msg.encode(&mut buf);
    assert_eq!(buf, expected);
}

/// Test OP_REP_IMPORT error against known byte sequence.
#[test]
fn golden_op_rep_import_error() {
    let expected: [u8; 8] = [
        0x01, 0x11, // version
        0x00, 0x03, // OP_REP_IMPORT
        0x00, 0x00, 0x00, 0x01, // status = 1 (error)
    ];
    let msg = OpRepImport {
        status: 1,
        device: None,
    };
    let mut buf = Vec::new();
    msg.encode(&mut buf);
    assert_eq!(buf, expected);
}

/// Test CMD_SUBMIT header against known byte sequence.
#[test]
fn golden_cmd_submit_control_in() {
    // GET_DESCRIPTOR control transfer: IN, ep=0, 64-byte buffer
    let msg = CmdSubmit {
        header: UsbipHeaderBasic {
            command: Command::CmdSubmit.code(),
            seqnum: 1,
            devid: 0x00010002,
            direction: 1, // IN
            ep: 0,
        },
        transfer_flags: 0x00000200, // URB_SHORT_NOT_OK
        transfer_buffer_length: 64,
        start_frame: 0,
        number_of_packets: 0xFFFFFFFF,
        interval: 0,
        setup: [0x80, 0x06, 0x00, 0x01, 0x00, 0x00, 0x40, 0x00],
        transfer_buffer: Bytes::new(),
        iso_packet_descriptors: vec![],
    };

    let mut buf = Vec::new();
    msg.encode(&mut buf);
    assert_eq!(buf.len(), 48); // No payload for IN

    // Verify specific byte positions
    // command = 0x00000001 at offset 0
    assert_eq!(&buf[0..4], &[0x00, 0x00, 0x00, 0x01]);
    // seqnum = 1 at offset 4
    assert_eq!(&buf[4..8], &[0x00, 0x00, 0x00, 0x01]);
    // devid at offset 8
    assert_eq!(&buf[8..12], &[0x00, 0x01, 0x00, 0x02]);
    // direction = IN = 1 at offset 12
    assert_eq!(&buf[12..16], &[0x00, 0x00, 0x00, 0x01]);
    // ep = 0 at offset 16
    assert_eq!(&buf[16..20], &[0x00, 0x00, 0x00, 0x00]);
    // transfer_flags at offset 20
    assert_eq!(&buf[20..24], &[0x00, 0x00, 0x02, 0x00]);
    // buffer_length = 64 at offset 24
    assert_eq!(&buf[24..28], &[0x00, 0x00, 0x00, 0x40]);
    // setup at offset 40
    assert_eq!(
        &buf[40..48],
        &[0x80, 0x06, 0x00, 0x01, 0x00, 0x00, 0x40, 0x00]
    );
}

/// Test RET_UNLINK with -ECONNRESET against known byte sequence.
#[test]
fn golden_ret_unlink_econnreset() {
    let msg = RetUnlink {
        header: UsbipHeaderBasic {
            command: Command::RetUnlink.code(),
            seqnum: 5,
            devid: 0x00010002,
            direction: 0,
            ep: 0,
        },
        status: -104, // -ECONNRESET
    };

    let mut buf = Vec::new();
    msg.encode(&mut buf);
    assert_eq!(buf.len(), 48);

    // command = 0x00000004 (RET_UNLINK)
    assert_eq!(&buf[0..4], &[0x00, 0x00, 0x00, 0x04]);
    // seqnum = 5
    assert_eq!(&buf[4..8], &[0x00, 0x00, 0x00, 0x05]);
    // status = -104 = 0xFFFFFF98
    assert_eq!(&buf[20..24], &[0xFF, 0xFF, 0xFF, 0x98]);
    // padding is all zeros
    assert!(buf[24..48].iter().all(|&b| b == 0));
}

/// Test CMD_UNLINK against known byte sequence.
#[test]
fn golden_cmd_unlink() {
    let msg = CmdUnlink {
        header: UsbipHeaderBasic {
            command: Command::CmdUnlink.code(),
            seqnum: 5,
            devid: 0x00010002,
            direction: 0,
            ep: 0,
        },
        unlink_seqnum: 3,
    };

    let mut buf = Vec::new();
    msg.encode(&mut buf);
    assert_eq!(buf.len(), 48);

    // command = 0x00000002 (CMD_UNLINK)
    assert_eq!(&buf[0..4], &[0x00, 0x00, 0x00, 0x02]);
    // unlink_seqnum = 3 at offset 20
    assert_eq!(&buf[20..24], &[0x00, 0x00, 0x00, 0x03]);
    // padding is all zeros
    assert!(buf[24..48].iter().all(|&b| b == 0));
}

/// Test RET_SUBMIT with IN data against known byte sequence.
#[test]
fn golden_ret_submit_in_with_data() {
    let data = vec![0x12, 0x01, 0x00, 0x02, 0x00, 0x00, 0x00, 0x40];
    let msg = RetSubmit {
        header: UsbipHeaderBasic {
            command: Command::RetSubmit.code(),
            seqnum: 1,
            devid: 0x00010002,
            direction: 1, // IN
            ep: 0,
        },
        status: 0,
        actual_length: 8,
        start_frame: 0,
        number_of_packets: 0xFFFFFFFF,
        error_count: 0,
        transfer_buffer: Bytes::from(data.clone()),
        iso_packet_descriptors: vec![],
    };

    let mut buf = Vec::new();
    msg.encode(&mut buf);
    assert_eq!(buf.len(), 48 + 8);

    // command = 0x00000003 (RET_SUBMIT)
    assert_eq!(&buf[0..4], &[0x00, 0x00, 0x00, 0x03]);
    // status = 0
    assert_eq!(&buf[20..24], &[0x00, 0x00, 0x00, 0x00]);
    // actual_length = 8
    assert_eq!(&buf[24..28], &[0x00, 0x00, 0x00, 0x08]);
    // transfer data at offset 48
    assert_eq!(&buf[48..56], &data[..]);
}

#[test]
fn reject_empty_buffer_header_basic() {
    let buf: &[u8] = &[];
    let mut cursor = buf;
    let result = UsbipHeaderBasic::decode(&mut cursor);
    assert!(matches!(
        result,
        Err(ProtocolError::BufferTooShort {
            needed: 20,
            available: 0
        })
    ));
}

#[test]
fn reject_truncated_cmd_submit() {
    // Only the header, missing the submit-specific fields
    let header = UsbipHeaderBasic {
        command: Command::CmdSubmit.code(),
        seqnum: 1,
        devid: 2,
        direction: 0,
        ep: 0,
    };
    let mut buf = Vec::new();
    header.encode(&mut buf);
    // Add only 10 bytes instead of 28
    buf.extend_from_slice(&[0u8; 10]);

    let mut cursor = &buf[..];
    // Decode header first
    let _ = UsbipHeaderBasic::decode(&mut cursor).unwrap();
    // Not enough for submit fields
    // We'll test via the full CmdSubmit::decode path
    let mut cursor = &buf[..];
    let result = CmdSubmit::decode(&mut cursor);
    assert!(matches!(result, Err(ProtocolError::BufferTooShort { .. })));
}

#[test]
fn reject_wrong_version() {
    let buf: [u8; 8] = [
        0x02, 0x00, // wrong version
        0x80, 0x05, // correct opcode
        0x00, 0x00, 0x00, 0x00,
    ];
    let mut cursor = &buf[..];
    let result = OpReqDevlist::decode(&mut cursor);
    assert!(matches!(
        result,
        Err(ProtocolError::UnsupportedVersion(0x0200))
    ));
}

#[test]
fn reject_wrong_opcode_in_decode() {
    let buf: [u8; 8] = [
        0x01, 0x11, // correct version
        0x00, 0x03, // OP_REP_IMPORT instead of OP_REQ_DEVLIST
        0x00, 0x00, 0x00, 0x00,
    ];
    let mut cursor = &buf[..];
    let result = OpReqDevlist::decode(&mut cursor);
    assert!(matches!(result, Err(ProtocolError::InvalidOpCode(0x0003))));
}

#[test]
fn reject_invalid_command_code() {
    // Put command=0x00000099 which is not valid
    let mut buf = Vec::new();
    buf.extend_from_slice(&0x00000099u32.to_be_bytes()); // invalid command
    buf.extend_from_slice(&[0u8; 44]); // rest of 48 bytes

    let mut cursor = &buf[..];
    let result = CmdSubmit::decode(&mut cursor);
    assert!(matches!(result, Err(ProtocolError::InvalidCommand(0x99))));
}

#[test]
fn reject_truncated_device_descriptor() {
    let buf = [0u8; 100]; // only 100 bytes, need 312
    let mut cursor = &buf[..];
    let result = UsbDevice::decode(&mut cursor);
    assert!(matches!(
        result,
        Err(ProtocolError::BufferTooShort {
            needed: 312,
            available: 100
        })
    ));
}

#[test]
fn reject_truncated_interface() {
    let buf = [0u8; 2]; // only 2 bytes, need 4
    let mut cursor = &buf[..];
    let result = UsbInterface::decode(&mut cursor);
    assert!(matches!(
        result,
        Err(ProtocolError::BufferTooShort {
            needed: 4,
            available: 2
        })
    ));
}

#[test]
fn reject_cmd_submit_with_missing_transfer_buffer() {
    // OUT transfer with buffer_length=100 but no actual data
    let msg_header = UsbipHeaderBasic {
        command: Command::CmdSubmit.code(),
        seqnum: 1,
        devid: 2,
        direction: 0, // OUT -- buffer expected
        ep: 1,
    };
    let mut buf = Vec::new();
    msg_header.encode(&mut buf);
    buf.extend_from_slice(&0u32.to_be_bytes()); // transfer_flags
    buf.extend_from_slice(&100u32.to_be_bytes()); // transfer_buffer_length = 100
    buf.extend_from_slice(&0u32.to_be_bytes()); // start_frame
    buf.extend_from_slice(&0u32.to_be_bytes()); // number_of_packets
    buf.extend_from_slice(&0u32.to_be_bytes()); // interval
    buf.extend_from_slice(&[0u8; 8]); // setup
                                      // No transfer buffer data!

    let mut cursor = &buf[..];
    let result = CmdSubmit::decode(&mut cursor);
    assert!(matches!(result, Err(ProtocolError::BufferTooShort { .. })));
}
