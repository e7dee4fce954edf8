//! Input devices.

use extender::client::hid::{
    build_get_report_descriptor_setup, build_set_idle_setup, build_set_protocol_setup,
    build_set_report_setup,
};

#[test]
fn test_get_report_descriptor_setup() {
    let setup = build_get_report_descriptor_setup(0, 256);
    assert_eq!(setup[0], 0x81); // bmRequestType
    assert_eq!(setup[1], 0x06); // GET_DESCRIPTOR
    assert_eq!(setup[2], 0x00); // descriptor index
    assert_eq!(setup[3], 0x22); // HID Report Descriptor type
    assert_eq!(setup[4], 0x00); // interface 0
    assert_eq!(setup[5], 0x00);
    assert_eq!(setup[6], 0x00); // length low (256 = 0x0100)
    assert_eq!(setup[7], 0x01); // length high
}

#[test]
fn test_get_report_descriptor_setup_interface_2() {
    let setup = build_get_report_descriptor_setup(2, 512);
    assert_eq!(setup[4], 2); // interface 2
                             // 512 = 0x0200
    assert_eq!(setup[6], 0x00);
    assert_eq!(setup[7], 0x02);
}

#[test]
fn test_get_report_descriptor_setup_small_length() {
    let setup = build_get_report_descriptor_setup(0, 64);
    assert_eq!(setup[6], 64); // length low
    assert_eq!(setup[7], 0); // length high
}

#[test]
fn test_set_idle_setup() {
    let setup = build_set_idle_setup(0, 0, 0);
    assert_eq!(setup[0], 0x21); // bmRequestType
    assert_eq!(setup[1], 0x0A); // SET_IDLE
    assert_eq!(setup[2], 0x00); // report_id
    assert_eq!(setup[3], 0x00); // duration
    assert_eq!(setup[4], 0x00); // interface
    assert_eq!(setup[5], 0x00);
    assert_eq!(setup[6], 0x00); // wLength = 0
    assert_eq!(setup[7], 0x00);
}

#[test]
fn test_set_idle_setup_with_params() {
    let setup = build_set_idle_setup(1, 100, 5);
    assert_eq!(setup[0], 0x21);
    assert_eq!(setup[1], 0x0A);
    assert_eq!(setup[2], 5); // report_id
    assert_eq!(setup[3], 100); // duration
    assert_eq!(setup[4], 1); // interface
}

#[test]
fn test_set_protocol_setup_boot() {
    let setup = build_set_protocol_setup(0, 0);
    assert_eq!(setup[0], 0x21); // bmRequestType
    assert_eq!(setup[1], 0x0B); // SET_PROTOCOL
    assert_eq!(setup[2], 0x00); // boot protocol
    assert_eq!(setup[3], 0x00);
    assert_eq!(setup[4], 0x00); // interface
    assert_eq!(setup[6], 0x00); // wLength = 0
    assert_eq!(setup[7], 0x00);
}

#[test]
fn test_set_protocol_setup_report() {
    let setup = build_set_protocol_setup(0, 1);
    assert_eq!(setup[2], 1); // report protocol
}

#[test]
fn test_set_protocol_setup_interface_3() {
    let setup = build_set_protocol_setup(3, 1);
    assert_eq!(setup[4], 3); // interface 3
}

#[test]
fn test_set_report_setup() {
    let setup = build_set_report_setup(0, 1);
    assert_eq!(setup[0], 0x21); // bmRequestType
    assert_eq!(setup[1], 0x09); // SET_REPORT
    assert_eq!(setup[2], 0x00); // report_id = 0
    assert_eq!(setup[3], 0x02); // report type = output
    assert_eq!(setup[4], 0x00); // interface
    assert_eq!(setup[5], 0x00);
    assert_eq!(setup[6], 0x01); // length low
    assert_eq!(setup[7], 0x00); // length high
}

#[test]
fn test_set_report_setup_larger_payload() {
    let setup = build_set_report_setup(1, 300);
    assert_eq!(setup[4], 1); // interface 1
                             // 300 = 0x012C
    assert_eq!(setup[6], 0x2C);
    assert_eq!(setup[7], 0x01);
}
