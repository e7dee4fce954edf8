//! Imported devices, driven by a server that answers over the wire.

use bytes::Bytes;
use extender::client::audio::AudioDevice;
use extender::client::engine::import_request;
use extender::client::error::ClientError;
use extender::client::hid::{HidDevice, HidInitStep};
use extender::client::mass_storage::{
    Cbw, Csw, CswStatus, MassStorageDevice, ScsiCommand, ScsiStep, StorageInitStep,
    CSW_SIGNATURE,
};
use extender::client::network::{NetworkDevice, NetworkProtocol, NTH16_SIGNATURE};
use extender::client::remote::{devlist_request, list_remote_devices, CONNECT_TIMEOUT_SECS};
use extender::client::serial::{LineCoding, SerialDevice, SerialInitStep};
use extender::client::transfer::next_number;
use extender::protocol::codec::{
    read_op_message, read_urb_message, write_op_message, write_urb_message, ReadStep,
};
use extender::protocol::codes::Command;
use extender::protocol::device::{UsbDevice, UsbInterface};
use extender::protocol::discovery::{OpMessage, OpRepDevlist, OpRepImport, OpReqDevlist};
use extender::protocol::urb::{
    CmdSubmit, IsoPacketDescriptor, RetSubmit, UrbMessage, UsbipHeaderBasic,
};

fn op_over_the_wire(m: &OpMessage) -> OpMessage {
    let mut buf = Vec::new();
    write_op_message(&mut buf, m);
    match read_op_message(&buf) {
        ReadStep::Message(m) => m,
        other => panic!("unexpected {other:?}"),
    }
}

fn urb_over_the_wire(m: &UrbMessage) -> UrbMessage {
    let mut buf = Vec::new();
    write_urb_message(&mut buf, m);
    match read_urb_message(&buf) {
        ReadStep::Message(m) => m,
        other => panic!("unexpected {other:?}"),
    }
}

/// A submission as the server gets it.
fn sent(cmd: CmdSubmit) -> CmdSubmit {
    match urb_over_the_wire(&UrbMessage::CmdSubmit(cmd)) {
        UrbMessage::CmdSubmit(c) => c,
        other => panic!("unexpected {other:?}"),
    }
}

/// The server's answer as the client gets it.
fn answered(cmd: &CmdSubmit, status: i32, actual_length: u32, data: Vec<u8>) -> UrbMessage {
    urb_over_the_wire(&UrbMessage::RetSubmit(RetSubmit {
        header: UsbipHeaderBasic {
            command: Command::RetSubmit.code(),
            seqnum: cmd.header.seqnum,
            devid: cmd.header.devid,
            direction: cmd.header.direction,
            ep: cmd.header.ep,
        },
        status,
        actual_length,
        start_frame: 0,
        number_of_packets: 0,
        error_count: 0,
        transfer_buffer: Bytes::from(data),
        iso_packet_descriptors: vec![],
    }))
}

fn device(bus_id: &str, devnum: u32, vendor: u16, product: u16) -> UsbDevice {
    UsbDevice {
        path: UsbDevice::path_from_str(&format!("/sys/devices/usb1/{bus_id}")),
        busid: UsbDevice::busid_from_str(bus_id).unwrap(),
        busnum: 1,
        devnum,
        speed: 3,
        id_vendor: vendor,
        id_product: product,
        bcd_device: 0x0100,
        device_class: 0,
        device_subclass: 0,
        device_protocol: 0,
        configuration_value: 1,
        num_configurations: 1,
        num_interfaces: 1,
        interfaces: vec![],
    }
}

/// The server's answer to an import.
fn import(bus_id: &str, d: UsbDevice) -> OpMessage {
    let asked = op_over_the_wire(&import_request(bus_id).unwrap());
    assert!(matches!(asked, OpMessage::ReqImport(_)));
    op_over_the_wire(&OpMessage::RepImport(Box::new(OpRepImport {
        status: 0,
        device: Some(d),
    })))
}

fn headset() -> AudioDevice {
    AudioDevice::connect("1-1", import("1-1", device("1-1", 2, 0x046D, 0x0A44))).unwrap()
}

#[test]
fn test_mock_audio_device_connect_and_initialize() {
    let mut dev = headset();
    let cmd = sent(dev.initialize());
    assert_eq!(cmd.header.direction, 1); // IN
    assert_eq!(cmd.header.ep, 0); // EP0
    assert_eq!(cmd.header.devid, 0x0001_0002);

    // A minimal device descriptor (18 bytes)
    let mut desc = vec![0u8; 18];
    desc[0] = 18;
    desc[1] = 1;
    desc[3] = 0x02;
    let data = dev.control_in_result(&answered(&cmd, 0, 18, desc)).unwrap();
    assert_eq!(data.len(), 18);

    assert_eq!(dev.sample_rate(), 48000);
    assert_eq!(dev.channels(), 2);
    assert_eq!(dev.bit_depth(), 16);
}

#[test]
fn test_mock_audio_set_sample_rate() {
    let mut dev = headset();
    let cmd = sent(dev.set_sample_rate(44100).unwrap());
    assert_eq!(cmd.header.direction, 0); // OUT
    assert_eq!(cmd.header.ep, 0); // EP0
    assert_eq!(cmd.setup[0], 0x22); // class, endpoint, host-to-device
    assert_eq!(cmd.setup[1], 0x01); // SET_CUR

    // 44100 = 0xAC44
    assert_eq!(cmd.transfer_buffer.len(), 3);
    assert_eq!(cmd.transfer_buffer[0], 0x44);
    assert_eq!(cmd.transfer_buffer[1], 0xAC);
    assert_eq!(cmd.transfer_buffer[2], 0x00);

    // What the device refuses is not remembered.
    assert!(dev.sample_rate_set(8000, &answered(&cmd, -32, 0, vec![])).is_err());
    assert_eq!(dev.sample_rate(), 48000);
    dev.sample_rate_set(44100, &answered(&cmd, 0, 0, vec![])).unwrap();
    assert_eq!(dev.sample_rate(), 44100);
}

#[test]
fn test_mock_audio_write_iso() {
    let mut dev = headset();
    let pcm_data = vec![0xABu8; 384]; // 2 packets * 192 bytes
    let cmd = sent(dev.write_audio(&pcm_data).unwrap());
    assert_eq!(cmd.header.direction, 0); // OUT
    assert_eq!(cmd.header.ep, 1); // playback endpoint
    assert!(cmd.number_of_packets != 0xFFFF_FFFF);
    assert!(!cmd.iso_packet_descriptors.is_empty());
    assert_eq!(cmd.transfer_buffer.len(), 384);

    let ret = urb_over_the_wire(&UrbMessage::RetSubmit(RetSubmit {
        header: UsbipHeaderBasic {
            command: Command::RetSubmit.code(),
            ..cmd.header.clone()
        },
        status: 0,
        actual_length: 0,
        start_frame: 0,
        number_of_packets: cmd.number_of_packets,
        error_count: 0,
        transfer_buffer: Bytes::new(),
        iso_packet_descriptors: cmd
            .iso_packet_descriptors
            .iter()
            .map(|d| IsoPacketDescriptor {
                offset: d.offset,
                length: d.length,
                actual_length: d.length,
                status: 0,
            })
            .collect(),
    }));
    assert_eq!(dev.write_audio_result(&ret, pcm_data.len()).unwrap(), 384);
}

#[test]
fn test_mock_audio_read_iso() {
    let mut dev = headset();
    let mut buf = vec![0u8; 384];
    let cmd = sent(dev.read_audio(buf.len()).unwrap());
    assert_eq!(cmd.header.direction, 1); // IN
    assert_eq!(cmd.header.ep, 2); // capture endpoint (0x82 & 0x0F)
    assert!(cmd.number_of_packets != 0xFFFF_FFFF);
    assert!(!cmd.iso_packet_descriptors.is_empty());

    let ret = urb_over_the_wire(&UrbMessage::RetSubmit(RetSubmit {
        header: UsbipHeaderBasic {
            command: Command::RetSubmit.code(),
            ..cmd.header.clone()
        },
        status: 0,
        actual_length: 192,
        start_frame: 0,
        number_of_packets: 1,
        error_count: 0,
        transfer_buffer: Bytes::from(vec![0x42u8; 192]),
        iso_packet_descriptors: vec![IsoPacketDescriptor {
            offset: 0,
            length: 192,
            actual_length: 192,
            status: 0,
        }],
    }));
    let read = dev.read_audio_result(&ret, &mut buf).unwrap();
    assert_eq!(read, 192);
    assert!(buf[..192].iter().all(|&b| b == 0x42));
    assert!(buf[192..].iter().all(|&b| b == 0));
}

#[test]
fn volume_and_mute() {
    let mut dev = headset();
    let cmd = sent(dev.set_volume(1, 0x1234));
    assert_eq!(cmd.setup, [0x21, 0x01, 0x01, 0x02, 0x02, 0x00, 0x02, 0x00]);
    assert_eq!(cmd.transfer_buffer.as_ref(), &[0x34, 0x12]);
    assert!(dev.control_out_result(&answered(&cmd, 0, 0, vec![])).is_ok());
    let cmd = sent(dev.set_mute(0, true));
    assert_eq!(cmd.setup, [0x21, 0x01, 0x00, 0x02, 0x01, 0x00, 0x01, 0x00]);
    assert_eq!(cmd.transfer_buffer.as_ref(), &[1]);
    let cmd = sent(dev.set_mute(0, false));
    assert_eq!(cmd.transfer_buffer.as_ref(), &[0]);
    assert!(matches!(
        dev.control_out_result(&answered(&cmd, -32, 0, vec![])),
        Err(ClientError::Audio(_))
    ));
}

fn keyboard() -> HidDevice {
    HidDevice::connect("1-1", import("1-1", device("1-1", 2, 0x046D, 0xC534))).unwrap()
}

#[test]
fn test_mock_hid_initialize() {
    let descriptor: Vec<u8> = vec![
        0x05, 0x01, 0x09, 0x06, 0xA1, 0x01, 0x05, 0x07, 0x19, 0xE0, 0x29, 0xE7, 0x15, 0x00, 0x25,
        0x01, 0x75, 0x01, 0x95, 0x08, 0x81, 0x02, 0x95, 0x01, 0x75, 0x08, 0x81, 0x01, 0x95, 0x06,
        0x75, 0x08, 0x15, 0x00, 0x25, 0x65, 0x05, 0x07, 0x19, 0x00, 0x29, 0x65, 0x81, 0x00, 0xC0,
    ];
    let mut dev = keyboard();

    // GET_DESCRIPTOR
    let (cmd, at) = match dev.initialize() {
        HidInitStep::Submit(c, at) => (sent(c), at),
        HidInitStep::Done => panic!("nothing was submitted"),
    };
    assert_eq!(cmd.header.direction, 1); // IN
    assert_eq!(cmd.header.ep, 0);
    assert_eq!(cmd.setup[0], 0x81);
    assert_eq!(cmd.setup[1], 0x06);
    assert_eq!(cmd.setup[3], 0x22);
    let ret = answered(&cmd, 0, descriptor.len() as u32, descriptor.clone());

    // SET_IDLE
    let (cmd, at) = match dev.continue_initialize(at, &ret).unwrap() {
        HidInitStep::Submit(c, at) => (sent(c), at),
        HidInitStep::Done => panic!("too early"),
    };
    assert_eq!(cmd.header.direction, 0); // OUT
    assert_eq!(cmd.header.ep, 0);
    assert_eq!(cmd.setup[0], 0x21);
    assert_eq!(cmd.setup[1], 0x0A);
    let ret = answered(&cmd, 0, 0, vec![]);

    // SET_PROTOCOL
    let (cmd, at) = match dev.continue_initialize(at, &ret).unwrap() {
        HidInitStep::Submit(c, at) => (sent(c), at),
        HidInitStep::Done => panic!("too early"),
    };
    assert_eq!(cmd.header.direction, 0); // OUT
    assert_eq!(cmd.header.ep, 0);
    assert_eq!(cmd.setup[0], 0x21);
    assert_eq!(cmd.setup[1], 0x0B);
    assert_eq!(cmd.setup[2], 1); // report protocol
    let ret = answered(&cmd, 0, 0, vec![]);
    assert!(matches!(
        dev.continue_initialize(at, &ret).unwrap(),
        HidInitStep::Done
    ));

    assert_eq!(dev.report_descriptor(), &descriptor[..]);
    assert_eq!(dev.vendor_id(), 0x046D);
    assert_eq!(dev.product_id(), 0xC534);
    assert_eq!(dev.interface_number(), 0);
}

#[test]
fn test_mock_hid_read_and_write_report() {
    // modifier=0x02 (left shift), key=0x04 (A)
    let input_report: Vec<u8> = vec![0x02, 0x00, 0x04, 0x00, 0x00, 0x00, 0x00, 0x00];
    let mut dev = keyboard();

    let cmd = sent(dev.read_report());
    assert_eq!(cmd.header.direction, 1); // IN
    assert_eq!(cmd.header.ep, 1); // ep_in = 0x81, stripped = 1
    let ret = answered(&cmd, 0, 8, input_report.clone());
    assert_eq!(dev.report_result(&ret).unwrap(), input_report);

    let cmd = sent(dev.write_report(&[0x02]));
    assert_eq!(cmd.header.direction, 0); // OUT
    assert_eq!(cmd.header.ep, 2); // ep_out = 0x02
    assert_eq!(cmd.transfer_buffer.as_ref(), &[0x02]); // caps lock LED
    assert!(dev.report_result(&answered(&cmd, 0, 0, vec![])).is_ok());
}

fn adapter() -> SerialDevice {
    SerialDevice::connect("1-1", import("1-1", device("1-1", 3, 0x10C4, 0xEA60))).unwrap()
}

#[test]
fn test_mock_serial_initialize() {
    let mut dev = adapter();

    // SET_LINE_CODING
    let (cmd, at) = match dev.initialize(115200) {
        SerialInitStep::Submit(c, at) => (sent(c), at),
        SerialInitStep::Done => panic!("nothing was submitted"),
    };
    assert_eq!(cmd.header.ep, 0);
    assert_eq!(cmd.header.direction, 0); // OUT
    assert_eq!(cmd.setup[0], 0x21);
    assert_eq!(cmd.setup[1], 0x20);
    assert_eq!(cmd.transfer_buffer.len(), 7);
    let mut lc_buf = [0u8; 7];
    lc_buf.copy_from_slice(&cmd.transfer_buffer);
    let lc = LineCoding::from_bytes(&lc_buf);
    assert_eq!(lc.baud_rate, 115200);
    assert_eq!(lc.data_bits, 8);
    let ret = answered(&cmd, 0, 0, vec![]);

    // SET_CONTROL_LINE_STATE
    let (cmd, at) = match dev.continue_initialize(at, 115200, &ret).unwrap() {
        SerialInitStep::Submit(c, at) => (sent(c), at),
        SerialInitStep::Done => panic!("too early"),
    };
    assert_eq!(cmd.header.ep, 0);
    assert_eq!(cmd.header.direction, 0);
    assert_eq!(cmd.setup[0], 0x21);
    assert_eq!(cmd.setup[1], 0x22);
    // wValue = 0x0003 (DTR=1, RTS=1)
    assert_eq!(cmd.setup[2], 0x03);
    assert_eq!(cmd.setup[3], 0x00);
    let ret = answered(&cmd, 0, 0, vec![]);
    assert!(matches!(
        dev.continue_initialize(at, 115200, &ret).unwrap(),
        SerialInitStep::Done
    ));

    assert_eq!(dev.baud_rate(), 115200);
    assert_eq!(dev.data_bits(), 8);
}

#[test]
fn test_mock_serial_write_read() {
    let mut dev = adapter();

    let cmd = sent(dev.write(b"Hello, Serial!"));
    assert_eq!(cmd.header.direction, 0); // OUT
    assert_eq!(cmd.header.ep, 2);
    assert_eq!(cmd.transfer_buffer.as_ref(), b"Hello, Serial!");
    let ret = answered(&cmd, 0, 0, vec![]);
    assert_eq!(dev.write_result(&ret, 14).unwrap(), 14);

    let mut buf = [0u8; 64];
    let cmd = sent(dev.read(buf.len()));
    assert_eq!(cmd.header.direction, 1); // IN
    assert_eq!(cmd.header.ep, 2); // 0x82 & 0x0F
    let ret = answered(&cmd, 0, 9, b"Response!".to_vec());
    let read_len = dev.read_result(&ret, &mut buf).unwrap();
    assert_eq!(&buf[..read_len], b"Response!");

    assert!(matches!(
        dev.read_result(&answered(&cmd, -32, 0, vec![]), &mut buf),
        Err(ClientError::Serial(_))
    ));
}

fn card(bus_id: &str, devnum: u32) -> NetworkDevice {
    NetworkDevice::connect(bus_id, import(bus_id, device(bus_id, devnum, 0x0BDA, 0x8153))).unwrap()
}

#[test]
fn test_mock_ecm_frame_read_write() {
    let mut dev = card("1-2", 4);

    // SET_ETHERNET_PACKET_FILTER
    let cmd = sent(dev.initialize());
    assert_eq!(cmd.header.ep, 0);
    assert_eq!(cmd.setup[0], 0x21);
    assert_eq!(cmd.setup[1], 0x43);
    assert!(dev.submission_result(&answered(&cmd, 0, 0, vec![])).is_ok());

    let mut frame = vec![0u8; 60];
    frame[0..6].copy_from_slice(&[0xFF; 6]);
    frame[6..12].copy_from_slice(&[0xDE, 0xAD, 0xBE, 0xEF, 0x00, 0x01]);
    frame[12] = 0x08;
    frame[13] = 0x00;
    let cmd = sent(dev.write_frame(&frame));
    assert_eq!(cmd.header.direction, 0); // OUT
    assert_eq!(cmd.header.ep, 2);
    assert_eq!(cmd.transfer_buffer.as_ref(), &frame[..]);
    assert!(dev.submission_result(&answered(&cmd, 0, 0, vec![])).is_ok());

    let cmd = sent(dev.read_frame());
    assert_eq!(cmd.header.direction, 1); // IN
    assert_eq!(cmd.header.ep, 1); // 0x81 & 0x0F
    let mut eth_frame = vec![0u8; 60];
    eth_frame[0..6].copy_from_slice(&[0xFF; 6]);
    eth_frame[6..12].copy_from_slice(&[0x00, 0x11, 0x22, 0x33, 0x44, 0x55]);
    eth_frame[12] = 0x08;
    eth_frame[13] = 0x06;
    let received = dev.frame_result(&answered(&cmd, 0, 60, eth_frame)).unwrap();
    assert_eq!(received.len(), 60);
    assert_eq!(&received[0..6], &[0xFF; 6]);
    assert_eq!(&received[12..14], &[0x08, 0x06]); // ARP
}

#[test]
fn test_mock_ncm_frame_roundtrip() {
    let mut dev = card("1-3", 5);
    dev.set_protocol(NetworkProtocol::Ncm);
    let cmd = sent(dev.initialize());
    assert!(dev.submission_result(&answered(&cmd, 0, 0, vec![])).is_ok());

    let mut frame = vec![0u8; 64];
    frame[0..6].copy_from_slice(&[0xFF; 6]);
    frame[6..12].copy_from_slice(&[0xDE, 0xAD, 0xBE, 0xEF, 0x00, 0x01]);
    frame[12] = 0x08;
    frame[13] = 0x00;
    let cmd = sent(dev.write_frame(&frame));
    assert!(cmd.transfer_buffer.len() >= 12);
    let sig = u32::from_le_bytes([
        cmd.transfer_buffer[0],
        cmd.transfer_buffer[1],
        cmd.transfer_buffer[2],
        cmd.transfer_buffer[3],
    ]);
    assert_eq!(sig, NTH16_SIGNATURE);
    assert!(dev.submission_result(&answered(&cmd, 0, 0, vec![])).is_ok());

    let cmd = sent(dev.read_frame());
    let mut eth_frame = vec![0u8; 64];
    eth_frame[0..6].copy_from_slice(&[0xFF; 6]);
    eth_frame[6..12].copy_from_slice(&[0xAA, 0xBB, 0xCC, 0xDD, 0xEE, 0xFF]);
    eth_frame[12] = 0x08;
    eth_frame[13] = 0x00;
    let ntb = NetworkDevice::wrap_ncm_ntb(&eth_frame);
    let ret = answered(&cmd, 0, ntb.len() as u32, ntb);
    let received = dev.frame_result(&ret).unwrap();
    assert_eq!(received.len(), 64);
    assert_eq!(&received[0..6], &[0xFF; 6]);
    assert_eq!(&received[6..12], &[0xAA, 0xBB, 0xCC, 0xDD, 0xEE, 0xFF]);
}

fn disk() -> MassStorageDevice {
    MassStorageDevice::connect("1-1", import("1-1", device("1-1", 2, 0x0781, 0x5567))).unwrap()
}

fn wrapper(cmd: &CmdSubmit) -> Cbw {
    let mut b = [0u8; 31];
    b.copy_from_slice(&cmd.transfer_buffer);
    Cbw::from_bytes(&b).unwrap()
}

fn status(tag: u32, status: CswStatus) -> Vec<u8> {
    Csw {
        signature: CSW_SIGNATURE,
        tag,
        data_residue: 0,
        status,
    }
    .to_bytes()
    .to_vec()
}

/// Answer the three submissions of a command of the initialisation.
fn answer_three(dev: &mut MassStorageDevice, step: StorageInitStep, op: u8, data: Vec<u8>) -> StorageInitStep {
    let (cmd, at) = match step {
        StorageInitStep::Submit(c, at) => (sent(c), at),
        StorageInitStep::Done => panic!("too early"),
    };
    assert_eq!(cmd.header.direction, 0); // OUT
    assert_eq!(cmd.transfer_buffer.len(), 31);
    let cbw = wrapper(&cmd);
    assert_eq!(cbw.cb[0], op);
    let ret = answered(&cmd, 0, 0, vec![]);

    let (cmd, at) = match dev.continue_initialize(at, &ret).unwrap() {
        StorageInitStep::Submit(c, at) => (sent(c), at),
        StorageInitStep::Done => panic!("too early"),
    };
    assert_eq!(cmd.header.direction, 1); // IN
    let ret = answered(&cmd, 0, data.len() as u32, data);

    let (cmd, at) = match dev.continue_initialize(at, &ret).unwrap() {
        StorageInitStep::Submit(c, at) => (sent(c), at),
        StorageInitStep::Done => panic!("too early"),
    };
    assert_eq!(cmd.header.direction, 1); // IN
    let ret = answered(&cmd, 0, 13, status(cbw.tag, CswStatus::Passed));
    dev.continue_initialize(at, &ret).unwrap()
}

#[test]
fn test_mock_inquiry_and_read_capacity() {
    let mut dev = disk();
    let mut inquiry = vec![0u8; 36];
    inquiry[8..16].copy_from_slice(b"TestVndr");
    inquiry[16..32].copy_from_slice(b"TestProduct12345");
    // Last LBA = 2047, block size = 512
    let mut capacity = vec![0u8; 8];
    capacity[0..4].copy_from_slice(&0x0000_07FFu32.to_be_bytes());
    capacity[4..8].copy_from_slice(&0x0000_0200u32.to_be_bytes());

    let step = dev.initialize();
    let step = answer_three(&mut dev, step, 0x12, inquiry);
    let step = answer_three(&mut dev, step, 0x25, capacity);
    assert!(matches!(step, StorageInitStep::Done));

    assert_eq!(dev.vendor(), "TestVndr");
    assert_eq!(dev.product(), "TestProduct12345");
    assert_eq!(dev.block_size(), 512);
    assert_eq!(dev.total_blocks(), 2048);
    assert_eq!(dev.disk_size(), 2048 * 512);
}

#[test]
fn names_that_are_no_text() {
    let mut dev = disk();
    let mut answer = vec![b' '; 36];
    answer[8..16].copy_from_slice(b" A\xffB    ");
    answer[16..32].copy_from_slice(b"\tProduct\xc3       ");
    dev.take_inquiry(&answer);
    assert_eq!(dev.vendor(), "A\u{fffd}B");
    assert_eq!(dev.product(), "Product\u{fffd}");
    dev.take_inquiry(&vec![b'x'; 31]);
    assert_eq!(dev.vendor(), "A\u{fffd}B");
}

#[test]
fn blocks_are_read_and_written() {
    let mut dev = disk();
    let mut capacity = vec![0u8; 8];
    capacity[3] = 9;
    capacity[6] = 2;
    dev.take_capacity(&capacity);
    assert_eq!(dev.total_blocks(), 10);

    match dev.read_blocks(0, 2, 1000) {
        Err(ClientError::MassStorage(t)) => {
            assert_eq!(t, "buffer too small: need 1024 bytes, got 1000")
        }
        other => panic!("unexpected {other:?}"),
    }
    let (cmd, exchange) = dev.read_blocks(3, 2, 1024).unwrap();
    let cmd = sent(cmd);
    let cbw = wrapper(&cmd);
    assert_eq!(&cbw.cb[..10], &[0x28, 0, 0, 0, 0, 3, 0, 0, 2, 0]);
    let step = dev
        .continue_command(exchange, &answered(&cmd, 0, 0, vec![]))
        .unwrap();
    let (cmd, exchange) = match step {
        ScsiStep::Submit(c, e) => (sent(c), e),
        other => panic!("unexpected {other:?}"),
    };
    let blocks: Vec<u8> = (0..1024u32).map(|i| i as u8).collect();
    let step = dev
        .continue_command(exchange, &answered(&cmd, 0, 1024, blocks.clone()))
        .unwrap();
    let (cmd, exchange) = match step {
        ScsiStep::Submit(c, e) => (sent(c), e),
        other => panic!("unexpected {other:?}"),
    };
    let ret = answered(&cmd, 0, 13, status(cbw.tag, CswStatus::Passed));
    match dev.continue_command(exchange, &ret).unwrap() {
        ScsiStep::Done(data) => assert_eq!(data, blocks),
        other => panic!("unexpected {other:?}"),
    }

    match dev.write_blocks(0, 1, &[0; 500]) {
        Err(ClientError::MassStorage(t)) => {
            assert_eq!(t, "data too small: need 512 bytes, got 500")
        }
        other => panic!("unexpected {other:?}"),
    }
    let (cmd, exchange, written) = dev.write_blocks(4, 1, &blocks).unwrap();
    assert_eq!(written, 512);
    let cmd = sent(cmd);
    assert_eq!(wrapper(&cmd).cb[0], 0x2A);
    let step = dev
        .continue_command(exchange, &answered(&cmd, 0, 0, vec![]))
        .unwrap();
    let (cmd, exchange) = match step {
        ScsiStep::Submit(c, e) => (sent(c), e),
        other => panic!("unexpected {other:?}"),
    };
    assert_eq!(cmd.transfer_buffer.as_ref(), &blocks[..512]);
    assert!(dev
        .continue_command(exchange, &answered(&cmd, -32, 0, vec![]))
        .is_err());
}

#[test]
fn commands_that_fail() {
    for (end, wrong_tag) in [
        (CswStatus::Failed, false),
        (CswStatus::PhaseError, false),
        (CswStatus::Passed, true),
    ] {
        let mut dev = disk();
        let (cmd, exchange) = dev.scsi_command(&ScsiCommand::TestUnitReady, None, 0);
        let cmd = sent(cmd);
        let tag = wrapper(&cmd).tag;
        let step = dev
            .continue_command(exchange, &answered(&cmd, 0, 0, vec![]))
            .unwrap();
        let (cmd, exchange) = match step {
            ScsiStep::Submit(c, e) => (sent(c), e),
            other => panic!("unexpected {other:?}"),
        };
        let tag = if wrong_tag { tag + 1 } else { tag };
        let ret = answered(&cmd, 0, 13, status(tag, end));
        assert!(matches!(
            dev.continue_command(exchange, &ret),
            Err(ClientError::MassStorage(_))
        ));
    }
}

fn devlist(status: u32, devices: Vec<UsbDevice>) -> OpMessage {
    assert_eq!(
        op_over_the_wire(&devlist_request()),
        OpMessage::ReqDevlist(OpReqDevlist)
    );
    op_over_the_wire(&OpMessage::RepDevlist(OpRepDevlist { status, devices }))
}

#[test]
fn test_list_remote_devices_empty() {
    assert!(list_remote_devices(devlist(0, vec![])).unwrap().is_empty());
}

#[test]
fn test_list_remote_devices_one_device() {
    let mut dev = device("1-1", 2, 0x1234, 0x5678);
    dev.interfaces = vec![UsbInterface {
        interface_class: 0x03,
        interface_subclass: 0x01,
        interface_protocol: 0x02,
        padding: 0,
    }];
    let devices = list_remote_devices(devlist(0, vec![dev])).unwrap();
    assert_eq!(devices.len(), 1);
    assert_eq!(devices[0].busid, "1-1");
    assert_eq!(devices[0].id_vendor, 0x1234);
    assert_eq!(devices[0].id_product, 0x5678);
    assert_eq!(devices[0].speed, 3);
    assert_eq!(devices[0].interface_classes, vec![0x03]);
}

#[test]
fn test_list_remote_devices_error_status() {
    let result = list_remote_devices(devlist(1, vec![]));
    assert!(result.is_err());
    assert!(matches!(
        result.unwrap_err(),
        ClientError::DevlistError { status: 1 }
    ));
    assert_eq!(CONNECT_TIMEOUT_SECS, 5);
    assert!(matches!(
        list_remote_devices(devlist_request()),
        Err(ClientError::Protocol(_))
    ));
}

#[test]
fn test_list_remote_devices_multiple() {
    let mut dev1 = device("1-1", 2, 0x0001, 0x0002);
    dev1.speed = 2;
    dev1.num_interfaces = 0;
    let mut dev2 = device("2-3", 3, 0xAAAA, 0xBBBB);
    dev2.speed = 5;
    dev2.num_interfaces = 0;
    let devices = list_remote_devices(devlist(0, vec![dev1, dev2])).unwrap();
    assert_eq!(devices.len(), 2);
    assert_eq!(devices[0].busid, "1-1");
    assert_eq!(devices[0].speed, 2);
    assert_eq!(devices[1].busid, "2-3");
    assert_eq!(devices[1].id_vendor, 0xAAAA);
}

#[test]
fn imports_that_fail() {
    let refused = || {
        OpMessage::RepImport(Box::new(OpRepImport {
            status: 4,
            device: None,
        }))
    };
    match SerialDevice::connect("1-1", refused()) {
        Err(ClientError::ImportRejected { busid, status }) => {
            assert_eq!((busid.as_str(), status), ("1-1", 4))
        }
        other => panic!("unexpected {other:?}"),
    }
    let missing = OpMessage::RepImport(Box::new(OpRepImport {
        status: 0,
        device: None,
    }));
    assert!(matches!(
        HidDevice::connect("1-1", missing),
        Err(ClientError::ImportMissingDevice)
    ));
    assert!(matches!(
        NetworkDevice::connect("1-1", devlist_request()),
        Err(ClientError::Protocol(_))
    ));
    assert!(import_request("a bus id that is much longer than its field").is_err());
}

#[test]
fn sample_rates_are_asked_for() {
    let mut dev = headset();
    let cmd = sent(dev.get_sample_rates().unwrap());
    assert_eq!(cmd.header.direction, 1);
    assert_eq!(cmd.setup[0], 0xA2);
    assert_eq!(cmd.setup[1], 0x81);
    let rates = dev
        .sample_rates_result(&answered(&cmd, 0, 3, vec![0x44, 0xAC, 0x00]))
        .unwrap();
    assert_eq!(rates, [44100, 8000, 16000, 22050, 48000, 96000]);
    let unsaid = dev
        .sample_rates_result(&answered(&cmd, 0, 2, vec![0x44, 0xAC]))
        .unwrap();
    assert_eq!(unsaid, [8000, 16000, 22050, 44100, 48000, 96000]);
    assert!(matches!(
        dev.sample_rates_result(&answered(&cmd, -32, 0, vec![])),
        Err(ClientError::Audio(_))
    ));
}

#[test]
fn hardware_addresses_are_kept() {
    let mut dev = card("1-2", 4);
    assert_eq!(dev.mac_address(), &[0; 6]);
    dev.set_mac_address([1, 2, 3, 4, 5, 6]);
    assert_eq!(dev.mac_address(), &[1, 2, 3, 4, 5, 6]);
}

#[test]
fn numbers_pass_over_zero() {
    assert_eq!(next_number(1), 2);
    assert_eq!(next_number(u32::MAX), 1);
    let mut dev = adapter();
    let first = dev.read(1).header.seqnum;
    let second = dev.read(1).header.seqnum;
    assert_eq!(second, first + 1);
}
