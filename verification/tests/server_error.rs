//! What errors of transfers are on the wire.

use extender::server::error::{rusb_error_to_errno, UsbError};

#[test]
fn test_rusb_error_to_errno_pipe() {
    assert_eq!(rusb_error_to_errno(&UsbError::Pipe), -32);
}

#[test]
fn test_rusb_error_to_errno_nodev() {
    assert_eq!(rusb_error_to_errno(&UsbError::NoDevice), -19);
}

#[test]
fn test_rusb_error_to_errno_timeout() {
    assert_eq!(rusb_error_to_errno(&UsbError::Timeout), -110);
}

#[test]
fn test_rusb_error_to_errno_busy() {
    assert_eq!(rusb_error_to_errno(&UsbError::Busy), -16);
}

#[test]
fn test_rusb_error_to_errno_overflow() {
    assert_eq!(rusb_error_to_errno(&UsbError::Overflow), -75);
}

#[test]
fn test_rusb_error_to_errno_access() {
    assert_eq!(rusb_error_to_errno(&UsbError::Access), -13);
}

#[test]
fn test_rusb_error_to_errno_io() {
    assert_eq!(rusb_error_to_errno(&UsbError::Io), -5);
}

#[test]
fn test_rusb_error_to_errno_invalid_param() {
    assert_eq!(rusb_error_to_errno(&UsbError::InvalidParam), -22);
}

#[test]
fn test_rusb_error_to_errno_not_supported() {
    assert_eq!(rusb_error_to_errno(&UsbError::NotSupported), -95);
}

#[test]
fn test_rusb_error_to_errno_not_found() {
    assert_eq!(rusb_error_to_errno(&UsbError::NotFound), -2);
}

#[test]
fn test_rusb_error_to_errno_no_mem() {
    assert_eq!(rusb_error_to_errno(&UsbError::NoMem), -12);
}

#[test]
fn test_rusb_error_to_errno_interrupted() {
    assert_eq!(rusb_error_to_errno(&UsbError::Interrupted), -4);
}
