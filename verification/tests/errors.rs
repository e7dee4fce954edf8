//! The texts of errors.

use extender::client::error::ClientError;
use extender::client::types::ServerAddr;
use extender::protocol::error::ProtocolError;
use extender::server::error::{ServerError, UsbError};

fn io() -> std::io::Error {
    std::io::Error::new(std::io::ErrorKind::Other, "broken")
}

#[test]
fn texts_of_protocol_errors() {
    let cases = [
        (
            ProtocolError::InvalidCommand(0x99),
            "invalid command code: 0x00000099",
        ),
        (ProtocolError::InvalidOpCode(5), "invalid op code: 0x0005"),
        (
            ProtocolError::BufferTooShort {
                needed: 48,
                available: 20,
            },
            "buffer too short: need 48 bytes, have 20",
        ),
        (
            ProtocolError::InvalidBusId("x".to_string()),
            "invalid bus ID: x",
        ),
        (
            ProtocolError::UnsupportedVersion(0x0200),
            "unsupported protocol version: 0x0200",
        ),
        (ProtocolError::Io(io()), "I/O error: broken"),
        (ProtocolError::RemoteError(1), "remote status error: 1"),
        (
            ProtocolError::TransferTooLarge { length: 9, max: 8 },
            "transfer buffer too large: 9 bytes (max 8)",
        ),
        (
            ProtocolError::TooManyDevices { count: 9, max: 8 },
            "too many devices in DEVLIST: 9 (max 8)",
        ),
        (
            ProtocolError::TooManyIsoPackets { count: 9, max: 8 },
            "too many ISO packets: 9 (max 8)",
        ),
    ];
    for (e, text) in cases {
        assert_eq!(e.message(), text);
    }
}

#[test]
fn texts_of_client_errors_by_variant() {
    let addr = ServerAddr {
        ip: "::1".to_string(),
        ipv6: true,
        port: 3240,
    };
    let s = |t: &str| t.to_string();
    let cases = [
        (ClientError::Io(io()), "I/O error: broken"),
        (
            ClientError::Protocol(ProtocolError::RemoteError(2)),
            "protocol error: remote status error: 2",
        ),
        (
            ClientError::Protocol(ProtocolError::Io(io())),
            "protocol error: I/O error: broken",
        ),
        (
            ClientError::ConnectTimeout {
                addr,
                timeout_secs: 5,
            },
            "connection to [::1]:3240 timed out after 5s",
        ),
        (
            ClientError::DevlistError { status: 1 },
            "remote server returned error status 1 for device list",
        ),
        (
            ClientError::ImportRejected {
                busid: s("1-1"),
                status: 4,
            },
            "remote server rejected import of bus ID '1-1' with status 4",
        ),
        (
            ClientError::ImportMissingDevice,
            "import reply missing device descriptor",
        ),
        (ClientError::InvalidBusId(s("x")), "invalid bus ID: x"),
        (
            ClientError::NoFreePort { speed: 3 },
            "no free VHCI port available for speed 3",
        ),
        (
            ClientError::PortNotAttached { port: 2 },
            "port 2 is not attached",
        ),
        (
            ClientError::VhciNotAvailable { reason: s("x") },
            "VHCI driver not available: x",
        ),
        (
            ClientError::PlatformNotSupported,
            "client import not supported on this platform yet",
        ),
        (ClientError::Tls(s("x")), "TLS error: x"),
        (
            ClientError::VhciParseError { reason: s("x") },
            "failed to parse VHCI status: x",
        ),
        (ClientError::MassStorage(s("x")), "mass storage error: x"),
        (ClientError::Network(s("x")), "network error: x"),
        (ClientError::Audio(s("x")), "audio error: x"),
        (ClientError::Hid(s("x")), "HID error: x"),
        (ClientError::Serial(s("x")), "serial error: x"),
        (
            ClientError::IOKit {
                code: -536870212,
                message: s("x"),
            },
            "IOKit error -536870212: x",
        ),
    ];
    for (e, text) in cases {
        assert_eq!(e.message(), text);
    }
}

#[test]
fn texts_of_usb_errors() {
    let cases = [
        (UsbError::Io, rusb::Error::Io),
        (UsbError::InvalidParam, rusb::Error::InvalidParam),
        (UsbError::Access, rusb::Error::Access),
        (UsbError::NoDevice, rusb::Error::NoDevice),
        (UsbError::NotFound, rusb::Error::NotFound),
        (UsbError::Busy, rusb::Error::Busy),
        (UsbError::Timeout, rusb::Error::Timeout),
        (UsbError::Overflow, rusb::Error::Overflow),
        (UsbError::Pipe, rusb::Error::Pipe),
        (UsbError::Interrupted, rusb::Error::Interrupted),
        (UsbError::NoMem, rusb::Error::NoMem),
        (UsbError::NotSupported, rusb::Error::NotSupported),
        (UsbError::BadDescriptor, rusb::Error::BadDescriptor),
        (UsbError::Other, rusb::Error::Other),
    ];
    for (e, outside) in cases {
        assert_eq!(e.message(), outside.to_string());
    }
}

#[test]
fn texts_of_server_errors() {
    let b = || "1-1".to_string();
    let cases = [
        (
            ServerError::UsbContextInit(UsbError::Io),
            "failed to initialize USB context: Input/Output Error",
        ),
        (
            ServerError::Enumeration(UsbError::Access),
            "failed to enumerate USB devices: Access denied (insufficient permissions)",
        ),
        (
            ServerError::DeviceNotFound { bus_id: b() },
            "device not found: 1-1",
        ),
        (
            ServerError::DeviceInUse { bus_id: b() },
            "device 1-1 is in use by another process",
        ),
        (
            ServerError::OpenDevice {
                bus_id: b(),
                source: UsbError::Busy,
            },
            "failed to open device 1-1: Resource busy",
        ),
        (
            ServerError::AutoDetach {
                bus_id: b(),
                source: UsbError::Busy,
            },
            "failed to set auto-detach kernel driver on 1-1: Resource busy",
        ),
        (
            ServerError::ClaimInterface {
                bus_id: b(),
                interface: 2,
                source: UsbError::Busy,
            },
            "failed to claim interface 2 on 1-1: Resource busy",
        ),
        (
            ServerError::ReleaseInterface {
                bus_id: b(),
                interface: 2,
                source: UsbError::Busy,
            },
            "failed to release interface 2 on 1-1: Resource busy",
        ),
        (
            ServerError::Transfer(UsbError::Pipe),
            "USB transfer error: Pipe error",
        ),
        (ServerError::Timeout, "USB transfer timed out"),
        (
            ServerError::Descriptor(UsbError::Io),
            "failed to read device descriptor: Input/Output Error",
        ),
        (
            ServerError::ConfigDescriptor(UsbError::Io),
            "failed to read configuration descriptor: Input/Output Error",
        ),
        (
            ServerError::Protocol(ProtocolError::InvalidBusId("x".to_string())),
            "protocol error: invalid bus ID: x",
        ),
        (
            ServerError::DeviceAlreadyBound { bus_id: b() },
            "device 1-1 is already bound for export",
        ),
        (
            ServerError::DeviceNotBound { bus_id: b() },
            "device 1-1 is not bound for export",
        ),
        (
            ServerError::ListenerBind(io()),
            "failed to bind TCP listener: broken",
        ),
        (ServerError::Io(io()), "I/O error: broken"),
    ];
    for (e, text) in cases {
        assert_eq!(e.message(), text);
    }
}
