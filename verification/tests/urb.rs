//! Transfers on the wire.

use bytes::Bytes;
use extender::protocol::codes::Command;
use extender::protocol::error::ProtocolError;
use extender::protocol::urb::{
    CmdSubmit, CmdUnlink, IsoPacketDescriptor, RetSubmit, RetUnlink, UsbipHeaderBasic, ECONNRESET,
};
use extender::protocol::wire::WireFormat;

fn make_basic_header(command: Command) -> UsbipHeaderBasic {
    UsbipHeaderBasic {
        command: command.code(),
        seqnum: 1,
        devid: 2,
        direction: 0,
        ep: 0,
    }
}

#[test]
fn test_header_basic_size() {
    let header = make_basic_header(Command::CmdSubmit);
    let mut buf = Vec::new();
    header.encode(&mut buf);
    assert_eq!(buf.len(), 20);
}

#[test]
fn test_header_basic_roundtrip() {
    let header = UsbipHeaderBasic {
        command: Command::CmdSubmit.code(),
        seqnum: 42,
        devid: 0x00010002,
        direction: 1,
        ep: 3,
    };
    let mut buf = Vec::new();
    header.encode(&mut buf);
    let mut cursor = &buf[..];
    let decoded = UsbipHeaderBasic::decode(&mut cursor).unwrap();
    assert_eq!(decoded, header);
}

#[test]
fn test_header_basic_big_endian() {
    let header = UsbipHeaderBasic {
        command: 0x00000001,
        seqnum: 0x00000042,
        devid: 0x00010002,
        direction: 0x00000001,
        ep: 0x00000003,
    };
    let mut buf = Vec::new();
    header.encode(&mut buf);

    // command = 0x00000001
    assert_eq!(&buf[0..4], &[0x00, 0x00, 0x00, 0x01]);
    // seqnum = 0x00000042
    assert_eq!(&buf[4..8], &[0x00, 0x00, 0x00, 0x42]);
    // devid = 0x00010002
    assert_eq!(&buf[8..12], &[0x00, 0x01, 0x00, 0x02]);
    // direction = 1
    assert_eq!(&buf[12..16], &[0x00, 0x00, 0x00, 0x01]);
    // ep = 3
    assert_eq!(&buf[16..20], &[0x00, 0x00, 0x00, 0x03]);
}

#[test]
fn test_cmd_submit_no_buffer() {
    let msg = CmdSubmit {
        header: UsbipHeaderBasic {
            command: Command::CmdSubmit.code(),
            seqnum: 1,
            devid: 2,
            direction: 1, // IN
            ep: 0,
        },
        transfer_flags: 0,
        transfer_buffer_length: 64,
        start_frame: 0,
        number_of_packets: 0xFFFFFFFF,
        interval: 0,
        setup: [0x80, 0x06, 0x00, 0x01, 0x00, 0x00, 0x40, 0x00],
        transfer_buffer: Bytes::new(),
        iso_packet_descriptors: vec![],
    };
    let mut buf = Vec::new();
    msg.encode(&mut buf);
    assert_eq!(buf.len(), 48); // header only, no payload for IN request

    let mut cursor = &buf[..];
    let decoded = CmdSubmit::decode(&mut cursor).unwrap();
    assert_eq!(decoded, msg);
}

#[test]
fn test_cmd_submit_with_out_buffer() {
    let data = vec![0xDE, 0xAD, 0xBE, 0xEF];
    let msg = CmdSubmit {
        header: UsbipHeaderBasic {
            command: Command::CmdSubmit.code(),
            seqnum: 1,
            devid: 2,
            direction: 0, // OUT
            ep: 1,
        },
        transfer_flags: 0,
        transfer_buffer_length: 4,
        start_frame: 0,
        number_of_packets: 0xFFFFFFFF,
        interval: 0,
        setup: [0; 8],
        transfer_buffer: Bytes::from(data.clone()),
        iso_packet_descriptors: vec![],
    };
    let mut buf = Vec::new();
    msg.encode(&mut buf);
    assert_eq!(buf.len(), 48 + 4);

    let mut cursor = &buf[..];
    let decoded = CmdSubmit::decode(&mut cursor).unwrap();
    assert_eq!(decoded, msg);
    assert_eq!(decoded.transfer_buffer.as_ref(), &data[..]);
}

#[test]
fn test_ret_submit_no_buffer() {
    let msg = RetSubmit {
        header: UsbipHeaderBasic {
            command: Command::RetSubmit.code(),
            seqnum: 1,
            devid: 2,
            direction: 0, // OUT
            ep: 1,
        },
        status: 0,
        actual_length: 0,
        start_frame: 0,
        number_of_packets: 0xFFFFFFFF,
        error_count: 0,
        transfer_buffer: Bytes::new(),
        iso_packet_descriptors: vec![],
    };
    let mut buf = Vec::new();
    msg.encode(&mut buf);
    assert_eq!(buf.len(), 48);

    let mut cursor = &buf[..];
    let decoded = RetSubmit::decode(&mut cursor).unwrap();
    assert_eq!(decoded, msg);
}

#[test]
fn test_ret_submit_with_in_buffer() {
    let data = vec![1, 2, 3, 4, 5, 6, 7, 8];
    let msg = RetSubmit {
        header: UsbipHeaderBasic {
            command: Command::RetSubmit.code(),
            seqnum: 1,
            devid: 2,
            direction: 1, // IN
            ep: 0,
        },
        status: 0,
        actual_length: 8,
        start_frame: 0,
        number_of_packets: 0xFFFFFFFF,
        error_count: 0,
        transfer_buffer: Bytes::from(data.clone()),
        iso_packet_descriptors: vec![],
    };
    let mut buf = Vec::new();
    msg.encode(&mut buf);
    assert_eq!(buf.len(), 48 + 8);

    let mut cursor = &buf[..];
    let decoded = RetSubmit::decode(&mut cursor).unwrap();
    assert_eq!(decoded, msg);
    assert_eq!(decoded.transfer_buffer.as_ref(), &data[..]);
}

#[test]
fn test_cmd_unlink_size() {
    let msg = CmdUnlink {
        header: UsbipHeaderBasic {
            command: Command::CmdUnlink.code(),
            seqnum: 5,
            devid: 2,
            direction: 0,
            ep: 0,
        },
        unlink_seqnum: 3,
    };
    let mut buf = Vec::new();
    msg.encode(&mut buf);
    assert_eq!(buf.len(), 48);
}

#[test]
fn test_cmd_unlink_roundtrip() {
    let msg = CmdUnlink {
        header: UsbipHeaderBasic {
            command: Command::CmdUnlink.code(),
            seqnum: 5,
            devid: 2,
            direction: 0,
            ep: 0,
        },
        unlink_seqnum: 3,
    };
    let mut buf = Vec::new();
    msg.encode(&mut buf);
    let mut cursor = &buf[..];
    let decoded = CmdUnlink::decode(&mut cursor).unwrap();
    assert_eq!(decoded, msg);
}

#[test]
fn test_ret_unlink_econnreset() {
    let msg = RetUnlink {
        header: UsbipHeaderBasic {
            command: Command::RetUnlink.code(),
            seqnum: 5,
            devid: 2,
            direction: 0,
            ep: 0,
        },
        status: ECONNRESET,
    };
    let mut buf = Vec::new();
    msg.encode(&mut buf);
    assert_eq!(buf.len(), 48);

    // Verify the status is correctly encoded as a signed big-endian i32.
    // -104 = 0xFFFFFF98
    assert_eq!(&buf[20..24], &[0xFF, 0xFF, 0xFF, 0x98]);

    let mut cursor = &buf[..];
    let decoded = RetUnlink::decode(&mut cursor).unwrap();
    assert_eq!(decoded, msg);
    assert_eq!(decoded.status, -104);
}

#[test]
fn test_ret_unlink_zero_status() {
    let msg = RetUnlink {
        header: UsbipHeaderBasic {
            command: Command::RetUnlink.code(),
            seqnum: 5,
            devid: 2,
            direction: 0,
            ep: 0,
        },
        status: 0,
    };
    let mut buf = Vec::new();
    msg.encode(&mut buf);
    let mut cursor = &buf[..];
    let decoded = RetUnlink::decode(&mut cursor).unwrap();
    assert_eq!(decoded, msg);
    assert_eq!(decoded.status, 0);
}

#[test]
fn test_cmd_unlink_padding_is_zeroed() {
    let msg = CmdUnlink {
        header: UsbipHeaderBasic {
            command: Command::CmdUnlink.code(),
            seqnum: 5,
            devid: 2,
            direction: 0,
            ep: 0,
        },
        unlink_seqnum: 3,
    };
    let mut buf = Vec::new();
    msg.encode(&mut buf);
    // Bytes 24..48 should be zero (padding)
    assert!(buf[24..48].iter().all(|&b| b == 0));
}

#[test]
fn test_wrong_command_rejected() {
    // Encode a CmdSubmit but try to decode as CmdUnlink
    let msg = CmdSubmit {
        header: UsbipHeaderBasic {
            command: Command::CmdSubmit.code(),
            seqnum: 1,
            devid: 2,
            direction: 1,
            ep: 0,
        },
        transfer_flags: 0,
        transfer_buffer_length: 0,
        start_frame: 0,
        number_of_packets: 0,
        interval: 0,
        setup: [0; 8],
        transfer_buffer: Bytes::new(),
        iso_packet_descriptors: vec![],
    };
    let mut buf = Vec::new();
    msg.encode(&mut buf);
    let mut cursor = &buf[..];
    let result = CmdUnlink::decode(&mut cursor);
    assert!(matches!(result, Err(ProtocolError::InvalidCommand(1))));
}

#[test]
fn test_iso_packet_descriptor_roundtrip() {
    let desc = IsoPacketDescriptor {
        offset: 0,
        length: 192,
        actual_length: 192,
        status: 0,
    };
    let mut buf = Vec::new();
    desc.encode(&mut buf);
    assert_eq!(buf.len(), 16);

    let mut cursor = &buf[..];
    let decoded = IsoPacketDescriptor::decode(&mut cursor).unwrap();
    assert_eq!(decoded, desc);
}

#[test]
fn test_iso_packet_descriptor_big_endian() {
    let desc = IsoPacketDescriptor {
        offset: 0x0000_00C0,
        length: 0x0000_00C0,
        actual_length: 0x0000_0080,
        status: 0x0000_0000,
    };
    let mut buf = Vec::new();
    desc.encode(&mut buf);
    assert_eq!(&buf[0..4], &[0x00, 0x00, 0x00, 0xC0]); // offset
    assert_eq!(&buf[4..8], &[0x00, 0x00, 0x00, 0xC0]); // length
    assert_eq!(&buf[8..12], &[0x00, 0x00, 0x00, 0x80]); // actual_length
    assert_eq!(&buf[12..16], &[0x00, 0x00, 0x00, 0x00]); // status
}

#[test]
fn test_cmd_submit_with_iso_descriptors() {
    let iso_descs = vec![
        IsoPacketDescriptor {
            offset: 0,
            length: 192,
            actual_length: 0,
            status: 0,
        },
        IsoPacketDescriptor {
            offset: 192,
            length: 192,
            actual_length: 0,
            status: 0,
        },
        IsoPacketDescriptor {
            offset: 384,
            length: 192,
            actual_length: 0,
            status: 0,
        },
    ];
    let pcm_data = vec![0u8; 576]; // 3 * 192
    let msg = CmdSubmit {
        header: UsbipHeaderBasic {
            command: Command::CmdSubmit.code(),
            seqnum: 1,
            devid: 2,
            direction: 0, // OUT
            ep: 3,
        },
        transfer_flags: 0,
        transfer_buffer_length: 576,
        start_frame: 0,
        number_of_packets: 3,
        interval: 1,
        setup: [0; 8],
        transfer_buffer: Bytes::from(pcm_data),
        iso_packet_descriptors: iso_descs,
    };
    let mut buf = Vec::new();
    msg.encode(&mut buf);
    // 48 header + 576 data + 3*16 iso descs = 48 + 576 + 48 = 672
    assert_eq!(buf.len(), 48 + 576 + 48);

    let mut cursor = &buf[..];
    let decoded = CmdSubmit::decode(&mut cursor).unwrap();
    assert_eq!(decoded, msg);
    assert_eq!(decoded.iso_packet_descriptors.len(), 3);
}

#[test]
fn test_ret_submit_with_iso_descriptors() {
    let iso_descs = vec![
        IsoPacketDescriptor {
            offset: 0,
            length: 192,
            actual_length: 192,
            status: 0,
        },
        IsoPacketDescriptor {
            offset: 192,
            length: 192,
            actual_length: 128,
            status: 0,
        },
    ];
    let pcm_data = vec![0xABu8; 320]; // 192 + 128
    let msg = RetSubmit {
        header: UsbipHeaderBasic {
            command: Command::RetSubmit.code(),
            seqnum: 1,
            devid: 2,
            direction: 1, // IN
            ep: 4,
        },
        status: 0,
        actual_length: 320,
        start_frame: 10,
        number_of_packets: 2,
        error_count: 0,
        transfer_buffer: Bytes::from(pcm_data),
        iso_packet_descriptors: iso_descs,
    };
    let mut buf = Vec::new();
    msg.encode(&mut buf);
    // 48 header + 320 data + 2*16 iso descs = 48 + 320 + 32 = 400
    assert_eq!(buf.len(), 48 + 320 + 32);

    let mut cursor = &buf[..];
    let decoded = RetSubmit::decode(&mut cursor).unwrap();
    assert_eq!(decoded, msg);
    assert_eq!(decoded.iso_packet_descriptors.len(), 2);
    assert_eq!(decoded.iso_packet_descriptors[1].actual_length, 128);
}

#[test]
fn test_backward_compat_non_iso_still_works() {
    // Ensure that non-ISO transfers (0xFFFFFFFF) produce no ISO descriptors
    let msg = CmdSubmit {
        header: UsbipHeaderBasic {
            command: Command::CmdSubmit.code(),
            seqnum: 1,
            devid: 2,
            direction: 1, // IN
            ep: 0,
        },
        transfer_flags: 0,
        transfer_buffer_length: 64,
        start_frame: 0,
        number_of_packets: 0xFFFFFFFF,
        interval: 0,
        setup: [0x80, 0x06, 0x00, 0x01, 0x00, 0x00, 0x40, 0x00],
        transfer_buffer: Bytes::new(),
        iso_packet_descriptors: vec![],
    };
    let mut buf = Vec::new();
    msg.encode(&mut buf);
    assert_eq!(buf.len(), 48); // No ISO descriptors appended

    let mut cursor = &buf[..];
    let decoded = CmdSubmit::decode(&mut cursor).unwrap();
    assert_eq!(decoded.iso_packet_descriptors.len(), 0);
    assert_eq!(decoded.number_of_packets, 0xFFFFFFFF);
}
