//! Network devices.

use extender::client::network::{
    build_set_packet_filter_setup, format_mac_address, parse_mac_address, NetworkDevice,
    DEFAULT_PACKET_FILTER, NDP16_SIGNATURE, NTH16_SIGNATURE, PACKET_TYPE_DIRECTED,
    PACKET_TYPE_PROMISCUOUS,
};

#[test]
fn test_parse_mac_address() {
    let mac = parse_mac_address("AA:BB:CC:DD:EE:FF").unwrap();
    assert_eq!(mac, [0xAA, 0xBB, 0xCC, 0xDD, 0xEE, 0xFF]);
}

#[test]
fn test_parse_mac_address_lowercase() {
    let mac = parse_mac_address("aa:bb:cc:dd:ee:ff").unwrap();
    assert_eq!(mac, [0xAA, 0xBB, 0xCC, 0xDD, 0xEE, 0xFF]);
}

#[test]
fn test_parse_mac_address_zeros() {
    let mac = parse_mac_address("00:00:00:00:00:00").unwrap();
    assert_eq!(mac, [0x00; 6]);
}

#[test]
fn test_parse_mac_address_broadcast() {
    let mac = parse_mac_address("FF:FF:FF:FF:FF:FF").unwrap();
    assert_eq!(mac, [0xFF; 6]);
}

#[test]
fn test_parse_mac_address_invalid_format() {
    assert!(parse_mac_address("AA:BB:CC:DD:EE").is_err());
    assert!(parse_mac_address("AA:BB:CC:DD:EE:FF:00").is_err());
    assert!(parse_mac_address("AABBCCDDEEFF").is_err());
    assert!(parse_mac_address("").is_err());
}

#[test]
fn test_parse_mac_address_invalid_hex() {
    assert!(parse_mac_address("GG:BB:CC:DD:EE:FF").is_err());
    assert!(parse_mac_address("AA:ZZ:CC:DD:EE:FF").is_err());
}

#[test]
fn test_format_mac_address() {
    let mac = [0xAA, 0xBB, 0xCC, 0xDD, 0xEE, 0xFF];
    assert_eq!(format_mac_address(&mac), "AA:BB:CC:DD:EE:FF");
}

#[test]
fn test_format_mac_address_zeros() {
    let mac = [0x00; 6];
    assert_eq!(format_mac_address(&mac), "00:00:00:00:00:00");
}

#[test]
fn test_mac_address_roundtrip() {
    let original = "12:34:56:78:9A:BC";
    let mac = parse_mac_address(original).unwrap();
    assert_eq!(format_mac_address(&mac), original);
}

#[test]
fn test_set_packet_filter_setup() {
    let setup = build_set_packet_filter_setup(0, DEFAULT_PACKET_FILTER);
    assert_eq!(setup[0], 0x21); // bmRequestType
    assert_eq!(setup[1], 0x43); // bRequest: SET_ETHERNET_PACKET_FILTER
                                // wValue = DEFAULT_PACKET_FILTER = 0x0013
    let filter_val = DEFAULT_PACKET_FILTER;
    assert_eq!(setup[2], (filter_val & 0xFF) as u8);
    assert_eq!(setup[3], ((filter_val >> 8) & 0xFF) as u8);
    assert_eq!(setup[4], 0x00); // wIndex (interface 0)
    assert_eq!(setup[5], 0x00);
    assert_eq!(setup[6], 0x00); // wLength = 0
    assert_eq!(setup[7], 0x00);
}

#[test]
fn test_set_packet_filter_promiscuous() {
    let setup = build_set_packet_filter_setup(1, PACKET_TYPE_PROMISCUOUS);
    assert_eq!(setup[2], 0x08); // wValue low
    assert_eq!(setup[3], 0x00); // wValue high
    assert_eq!(setup[4], 1); // interface 1
}

#[test]
fn test_set_packet_filter_interface_2() {
    let setup = build_set_packet_filter_setup(2, PACKET_TYPE_DIRECTED);
    assert_eq!(setup[4], 2);
}

#[test]
fn test_ncm_ntb_wrap_unwrap_roundtrip() {
    let frame = vec![
        // Destination MAC
        0xFF, 0xFF, 0xFF, 0xFF, 0xFF, 0xFF, // Source MAC
        0x00, 0x11, 0x22, 0x33, 0x44, 0x55, // EtherType (IPv4)
        0x08, 0x00, // Payload
        0x45, 0x00, 0x00, 0x1C, 0x00, 0x01,
    ];

    let ntb = NetworkDevice::wrap_ncm_ntb(&frame);
    let recovered = NetworkDevice::unwrap_ncm_ntb(&ntb).unwrap();
    assert_eq!(recovered, frame);
}

#[test]
fn test_ncm_ntb_wrap_structure() {
    let frame = vec![0xAA; 20];
    let ntb = NetworkDevice::wrap_ncm_ntb(&frame);

    // NTH16: 12 bytes, NDP16: 16 bytes, datagram: 20 bytes
    assert_eq!(ntb.len(), 12 + 16 + 20);

    // Check NTH16 signature "NCMH"
    let sig = u32::from_le_bytes([ntb[0], ntb[1], ntb[2], ntb[3]]);
    assert_eq!(sig, NTH16_SIGNATURE);

    // Check header length
    let hdr_len = u16::from_le_bytes([ntb[4], ntb[5]]);
    assert_eq!(hdr_len, 12);

    // Check block length
    let block_len = u16::from_le_bytes([ntb[8], ntb[9]]);
    assert_eq!(block_len, 48);

    // Check NDP offset
    let ndp_offset = u16::from_le_bytes([ntb[10], ntb[11]]);
    assert_eq!(ndp_offset, 12);

    // Check NDP16 signature "NCM0"
    let ndp_sig = u32::from_le_bytes([ntb[12], ntb[13], ntb[14], ntb[15]]);
    assert_eq!(ndp_sig, NDP16_SIGNATURE);
}

#[test]
fn test_ncm_ntb_unwrap_invalid_signature() {
    let mut data = vec![0u8; 48];
    // Invalid NTH16 signature
    data[0..4].copy_from_slice(&[0xFF, 0xFF, 0xFF, 0xFF]);
    assert!(NetworkDevice::unwrap_ncm_ntb(&data).is_err());
}

#[test]
fn test_ncm_ntb_unwrap_too_short() {
    let data = vec![0u8; 4]; // way too short
    assert!(NetworkDevice::unwrap_ncm_ntb(&data).is_err());
}

#[test]
fn test_ncm_ntb_unwrap_empty_ntb() {
    // Valid headers but terminator entry (no datagrams)
    let mut data = vec![0u8; 28];
    // NTH16
    data[0..4].copy_from_slice(&NTH16_SIGNATURE.to_le_bytes());
    data[4..6].copy_from_slice(&12u16.to_le_bytes());
    data[8..10].copy_from_slice(&28u16.to_le_bytes());
    data[10..12].copy_from_slice(&12u16.to_le_bytes()); // NDP at offset 12
                                                        // NDP16
    data[12..16].copy_from_slice(&NDP16_SIGNATURE.to_le_bytes());
    data[16..18].copy_from_slice(&16u16.to_le_bytes());
    // Terminator: datagram index=0, length=0
    data[20..22].copy_from_slice(&0u16.to_le_bytes());
    data[22..24].copy_from_slice(&0u16.to_le_bytes());

    assert!(NetworkDevice::unwrap_ncm_ntb(&data).is_err());
}

#[test]
fn the_largest_frame_fits_a_block() {
    let frame = vec![7u8; 65507];
    let ntb = NetworkDevice::wrap_ncm_ntb(&frame);
    assert_eq!(ntb.len(), 65535);
    assert_eq!(ntb[8..10], [0xff, 0xff]);
    assert_eq!(NetworkDevice::unwrap_ncm_ntb(&ntb).unwrap(), frame);
}
