//! The virtual ports of Linux.

use extender::client::error::ClientError;
use extender::client::types::PortStatus;
use extender::client::vhci::{find_free_port_in_list, parse_vhci_status};

const SAMPLE_STATUS: &str = "\
hub port sta spd dev      sockfd local_busid
hs  0000 004 000 00000000 000000 0-0
hs  0001 004 000 00000000 000000 0-0
hs  0002 006 002 00010002 000003 1-1
hs  0003 004 000 00000000 000000 0-0
hub port sta spd dev      sockfd local_busid
ss  0004 004 000 00000000 000000 0-0
ss  0005 004 000 00000000 000000 0-0
ss  0006 006 005 00020003 000004 2-1
ss  0007 004 000 00000000 000000 0-0
";

#[test]
fn test_parse_vhci_status() {
    let ports = parse_vhci_status(SAMPLE_STATUS).unwrap();
    assert_eq!(ports.len(), 8);

    // First port: hs, free
    assert_eq!(ports[0].hub, "hs");
    assert_eq!(ports[0].port, 0);
    assert_eq!(ports[0].status, PortStatus::Free);
    assert_eq!(ports[0].speed, 0);
    assert_eq!(ports[0].devid, 0);
    assert_eq!(ports[0].local_busid, "0-0");

    // Third port: hs, in use
    assert_eq!(ports[2].hub, "hs");
    assert_eq!(ports[2].port, 2);
    assert_eq!(ports[2].status, PortStatus::InUse);
    assert_eq!(ports[2].speed, 2);
    assert_eq!(ports[2].devid, 0x00010002);
    assert_eq!(ports[2].sockfd, 3);
    assert_eq!(ports[2].local_busid, "1-1");

    // Seventh port: ss, in use
    assert_eq!(ports[6].hub, "ss");
    assert_eq!(ports[6].port, 6);
    assert_eq!(ports[6].status, PortStatus::InUse);
    assert_eq!(ports[6].speed, 5);
    assert_eq!(ports[6].devid, 0x00020003);
}

#[test]
fn test_parse_empty_status() {
    let ports = parse_vhci_status("hub port sta spd dev      sockfd local_busid\n").unwrap();
    assert!(ports.is_empty());
}

#[test]
fn test_find_free_port_high_speed() {
    let ports = parse_vhci_status(SAMPLE_STATUS).unwrap();
    // Speed 2 (full) should find hs port 0 (first free hs port)
    let port = find_free_port_in_list(&ports, 2).unwrap();
    assert_eq!(port, 0);
}

#[test]
fn test_find_free_port_super_speed() {
    let ports = parse_vhci_status(SAMPLE_STATUS).unwrap();
    // Speed 5 (super) should find ss port 4 (first free ss port)
    let port = find_free_port_in_list(&ports, 5).unwrap();
    assert_eq!(port, 4);
}

#[test]
fn test_find_free_port_none_available() {
    let status = "\
hub port sta spd dev      sockfd local_busid
hs  0000 006 002 00010001 000001 1-1
hs  0001 006 003 00010002 000002 1-2
";
    let ports = parse_vhci_status(status).unwrap();
    // All hs ports in use, requesting high-speed
    let result = find_free_port_in_list(&ports, 3);
    assert!(matches!(result, Err(ClientError::NoFreePort { speed: 3 })));
}

#[test]
fn test_parse_status_with_trailing_whitespace() {
    let status = "hub port sta spd dev      sockfd local_busid\n  hs  0000 004 000 00000000 000000 0-0  \n";
    let ports = parse_vhci_status(status).unwrap();
    assert_eq!(ports.len(), 1);
    assert_eq!(ports[0].hub, "hs");
    assert!(ports[0].status.is_free());
}
