//! The virtual ports of Windows.

use extender::client::vhci_windows::{
    PluginHardwareReply, PluginHardwareRequest, UnplugHardwareRequest, IOCTL_GET_IMPORTED,
    IOCTL_PLUGIN_HARDWARE, IOCTL_UNPLUG_HARDWARE, MAX_BUSID_LEN, MAX_HOST_LEN, MAX_SERVICE_LEN,
};

/// Verify IOCTL code computation matches expected values.
#[test]
fn test_ioctl_codes() {
    // CTL_CODE(0x22, 1, 0, 0) = 0x00220004
    assert_eq!(IOCTL_PLUGIN_HARDWARE, 0x0022_0004);
    // CTL_CODE(0x22, 2, 0, 0) = 0x00220008
    assert_eq!(IOCTL_UNPLUG_HARDWARE, 0x0022_0008);
    // CTL_CODE(0x22, 3, 0, 0) = 0x0022000C
    assert_eq!(IOCTL_GET_IMPORTED, 0x0022_000C);
}

/// Verify PluginHardwareRequest is constructed correctly.
#[test]
fn test_plugin_request_construction() {
    let req = PluginHardwareRequest::new("192.168.1.100", 3240, "1-2.4").unwrap();

    // Check host field
    let host_str = std::str::from_utf8(&req.host)
        .unwrap()
        .trim_end_matches('\0');
    assert_eq!(host_str, "192.168.1.100");

    // Check service field
    let service_str = std::str::from_utf8(&req.service)
        .unwrap()
        .trim_end_matches('\0');
    assert_eq!(service_str, "3240");

    // Check busid field
    let busid_str = std::str::from_utf8(&req.busid)
        .unwrap()
        .trim_end_matches('\0');
    assert_eq!(busid_str, "1-2.4");
}

/// Verify that overly long hostnames are rejected.
#[test]
fn test_plugin_request_host_too_long() {
    let long_host = "a".repeat(MAX_HOST_LEN);
    let result = PluginHardwareRequest::new(&long_host, 3240, "1-1");
    assert!(result.is_err());
}

/// Verify struct sizes are reasonable.
#[test]
fn test_struct_sizes() {
    assert_eq!(
        std::mem::size_of::<PluginHardwareRequest>(),
        MAX_HOST_LEN + MAX_SERVICE_LEN + MAX_BUSID_LEN,
    );
    assert_eq!(std::mem::size_of::<PluginHardwareReply>(), 4);
    assert_eq!(std::mem::size_of::<UnplugHardwareRequest>(), 4);
}
