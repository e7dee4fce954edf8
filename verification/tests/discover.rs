//! Servers found on the local network.

use extender::client::discover::{
    collect_servers, distinct_servers, parse_records, preferred_addr, resolved_servers,
    DiscoveredServer,
};
use extender::client::types::ServerAddr;

fn addr(ip: &str, ipv6: bool, port: u16) -> ServerAddr {
    ServerAddr {
        ip: ip.to_string(),
        ipv6,
        port,
    }
}

#[test]
fn test_parse_dns_sd_output() {
    let output = r#"
_usbip._tcp                                     PTR     Extender\032on\032calimba._usbip._tcp.local.
Extender\032on\032calimba._usbip._tcp.local.    SRV     0 0 3240 calimba.local.
Extender\032on\032calimba._usbip._tcp.local.    TXT     "version=0.1.0" "devices=1"
"#;
    let records = parse_records(output);
    assert_eq!(records.len(), 1);
    assert_eq!(records[0].name, "Extender on calimba");
    assert_eq!(records[0].host, "calimba.local");
    assert_eq!(records[0].port, 3240);
    assert_eq!(records[0].version, "0.1.0");
    assert_eq!(records[0].devices, 1);
    assert!(collect_servers(&records, &vec![vec![]]).is_empty());
    let servers = collect_servers(
        &records,
        &vec![vec![addr("fe80::1", true, 3240), addr("10.0.0.5", false, 3240)]],
    );
    assert_eq!(servers.len(), 1);
    assert_eq!(servers[0].hostname, "Extender on calimba");
    assert_eq!(servers[0].addr.ip, "10.0.0.5");
}

#[test]
fn names_are_unescaped() {
    let output = "a\\.b\\\\c._usbip._tcp.local. SRV 0 0 x host..\nq TXT \"devices=x\"\n";
    let records = parse_records(output);
    assert_eq!(records.len(), 1);
    assert_eq!(records[0].name, "a.bc");
    assert_eq!(records[0].port, 3240);
    assert_eq!(records[0].host, "host");
    assert_eq!(records[0].devices, 0);
    assert_eq!(records[0].version, "");
}

#[test]
fn records_without_a_place_are_not_complete() {
    assert!(parse_records("a TXT \"version=1\"\n").is_empty());
    assert!(parse_records("a SRV 0 0 3240\na TXT \"version=1\"\n").is_empty());
    assert!(parse_records("").is_empty());
    // What is said before the place is kept until the record is complete.
    let records = parse_records("a TXT \"version=1\"\na._usbip SRV 0 0 1 h.\na TXT \"devices=4\"");
    assert_eq!(records.len(), 1);
    assert_eq!(records[0].version, "1");
    assert_eq!(records[0].devices, 4);
}

#[test]
fn a_name_is_taken_once() {
    let output = "a._usbip SRV 0 0 1 h.\na TXT \"version=1\"\n\
                  a._usbip SRV 0 0 2 h.\na TXT \"version=2\"\n\
                  b._usbip SRV 0 0 3 h.\nb TXT \"version=3\"\n";
    let records = parse_records(output);
    assert_eq!(records.len(), 3);
    let resolved = vec![
        vec![addr("10.0.0.1", false, 1)],
        vec![addr("10.0.0.2", false, 2)],
        vec![addr("10.0.0.3", false, 3)],
    ];
    let servers = collect_servers(&records, &resolved);
    assert_eq!(servers.len(), 2);
    assert_eq!(servers[0].version, "1");
    assert_eq!(servers[1].hostname, "b");
}

#[test]
fn ipv4_is_preferred() {
    assert!(preferred_addr(&vec![]).is_none());
    let only6 = vec![addr("::1", true, 1), addr("::2", true, 1)];
    assert_eq!(preferred_addr(&only6).unwrap().ip, "::1");
    let both = vec![addr("::1", true, 1), addr("1.2.3.4", false, 1)];
    assert_eq!(preferred_addr(&both).unwrap().ip, "1.2.3.4");
}

#[test]
fn services_with_and_without_properties() {
    let addrs = vec![addr("1.2.3.4", false, 9), addr("::1", true, 9)];
    let bare = resolved_servers("full", None, None, &addrs);
    assert_eq!(bare.len(), 2);
    assert_eq!(bare[0].version, "unknown");
    assert_eq!(bare[0].device_count, 0);
    assert_eq!(bare[1].addr.ip, "::1");
    let said = resolved_servers(
        "full",
        Some("2.0".to_string()),
        Some("7".to_string()),
        &addrs,
    );
    assert_eq!(said[0].version, "2.0");
    assert_eq!(said[0].device_count, 7);
}

fn server(name: &str, ip: &str, ipv6: bool) -> DiscoveredServer {
    DiscoveredServer {
        hostname: name.to_string(),
        addr: addr(ip, ipv6, 3240),
        version: String::new(),
        device_count: 0,
    }
}

#[test]
fn addresses_are_sorted_and_taken_once() {
    let found = vec![
        server("c", "10.0.0.2", false),
        server("a", "::1", true),
        server("b", "10.0.0.10", false),
        server("d", "10.0.0.2", false),
    ];
    let left = distinct_servers(found);
    let names: Vec<&str> = left.iter().map(|s| s.hostname.as_str()).collect();
    // "10.0.0.10:3240" < "10.0.0.2:3240" < "[::1]:3240"
    assert_eq!(names, ["b", "c", "a"]);
    assert!(distinct_servers(vec![]).is_empty());
}
