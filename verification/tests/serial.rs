//! Serial devices.

use extender::client::serial::{
    build_set_control_line_state_setup, build_set_line_coding_setup, LineCoding,
};

#[test]
fn test_line_coding_to_bytes() {
    let coding = LineCoding {
        baud_rate: 115200,
        stop_bits: 0,
        parity: 0,
        data_bits: 8,
    };
    let bytes = coding.to_bytes();
    assert_eq!(bytes.len(), 7);
    // 115200 = 0x0001_C200 in little-endian: [0x00, 0xC2, 0x01, 0x00]
    assert_eq!(&bytes[0..4], &115200u32.to_le_bytes());
    assert_eq!(bytes[4], 0); // stop bits
    assert_eq!(bytes[5], 0); // parity
    assert_eq!(bytes[6], 8); // data bits
}

#[test]
fn test_line_coding_roundtrip() {
    let coding = LineCoding {
        baud_rate: 9600,
        stop_bits: 2,
        parity: 1,
        data_bits: 7,
    };
    let bytes = coding.to_bytes();
    let decoded = LineCoding::from_bytes(&bytes);
    assert_eq!(decoded, coding);
}

#[test]
fn test_line_coding_various_baud_rates() {
    for &baud in &[
        300u32, 1200, 2400, 4800, 9600, 19200, 38400, 57600, 115200, 921600,
    ] {
        let coding = LineCoding {
            baud_rate: baud,
            stop_bits: 0,
            parity: 0,
            data_bits: 8,
        };
        let bytes = coding.to_bytes();
        let decoded = LineCoding::from_bytes(&bytes);
        assert_eq!(decoded.baud_rate, baud);
    }
}

#[test]
fn test_line_coding_stop_bits_values() {
    // 0=1 stop bit, 1=1.5 stop bits, 2=2 stop bits
    for stop in 0..=2u8 {
        let coding = LineCoding {
            baud_rate: 9600,
            stop_bits: stop,
            parity: 0,
            data_bits: 8,
        };
        let bytes = coding.to_bytes();
        assert_eq!(bytes[4], stop);
    }
}

#[test]
fn test_line_coding_parity_values() {
    // 0=none, 1=odd, 2=even, 3=mark, 4=space
    for parity in 0..=4u8 {
        let coding = LineCoding {
            baud_rate: 9600,
            stop_bits: 0,
            parity,
            data_bits: 8,
        };
        let bytes = coding.to_bytes();
        assert_eq!(bytes[5], parity);
    }
}

#[test]
fn test_line_coding_data_bits_values() {
    for &bits in &[5u8, 6, 7, 8] {
        let coding = LineCoding {
            baud_rate: 9600,
            stop_bits: 0,
            parity: 0,
            data_bits: bits,
        };
        let bytes = coding.to_bytes();
        assert_eq!(bytes[6], bits);
    }
}

#[test]
fn test_set_line_coding_setup_packet() {
    let setup = build_set_line_coding_setup(0);
    assert_eq!(setup[0], 0x21); // bmRequestType: class, interface, host-to-device
    assert_eq!(setup[1], 0x20); // bRequest: SET_LINE_CODING
    assert_eq!(setup[2], 0x00); // wValue low
    assert_eq!(setup[3], 0x00); // wValue high
    assert_eq!(setup[4], 0x00); // wIndex low (interface 0)
    assert_eq!(setup[5], 0x00); // wIndex high
    assert_eq!(setup[6], 0x07); // wLength low (7 bytes)
    assert_eq!(setup[7], 0x00); // wLength high
}

#[test]
fn test_set_line_coding_setup_interface_1() {
    let setup = build_set_line_coding_setup(1);
    assert_eq!(setup[4], 1); // wIndex should be interface 1
}

#[test]
fn test_set_control_line_state_dtr_only() {
    let setup = build_set_control_line_state_setup(0, true, false);
    assert_eq!(setup[0], 0x21);
    assert_eq!(setup[1], 0x22); // SET_CONTROL_LINE_STATE
    assert_eq!(setup[2], 0x01); // wValue low: DTR=1, RTS=0
    assert_eq!(setup[3], 0x00); // wValue high
    assert_eq!(setup[6], 0x00); // wLength = 0 (no data stage)
    assert_eq!(setup[7], 0x00);
}

#[test]
fn test_set_control_line_state_rts_only() {
    let setup = build_set_control_line_state_setup(0, false, true);
    assert_eq!(setup[2], 0x02); // wValue low: DTR=0, RTS=1
    assert_eq!(setup[3], 0x00);
}

#[test]
fn test_set_control_line_state_both() {
    let setup = build_set_control_line_state_setup(0, true, true);
    assert_eq!(setup[2], 0x03); // wValue low: DTR=1, RTS=1
    assert_eq!(setup[3], 0x00);
}

#[test]
fn test_set_control_line_state_neither() {
    let setup = build_set_control_line_state_setup(0, false, false);
    assert_eq!(setup[2], 0x00); // wValue low: DTR=0, RTS=0
    assert_eq!(setup[3], 0x00);
}

#[test]
fn test_set_control_line_state_interface_2() {
    let setup = build_set_control_line_state_setup(2, true, true);
    assert_eq!(setup[4], 2); // wIndex should be interface 2
}
