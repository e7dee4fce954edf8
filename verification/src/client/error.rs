//! Errors of the importing side.

use vstd::prelude::*;
use vstd::string::*;

use crate::client::types::ServerAddr;
use crate::protocol::error::ProtocolError;
use crate::text::{decimal, decimal_string, signed_decimal, signed_decimal_string};

verus! {

/// Errors of the importing side.
#[derive(Debug)]
pub enum ClientError {
    /// Reading or writing failed.
    Io(std::io::Error),
    /// A message is not what the protocol calls for.
    Protocol(ProtocolError),
    /// The server did not take the connection in time.
    ConnectTimeout { addr: ServerAddr, timeout_secs: u64 },
    /// The server answered a request for its devices with an error.
    DevlistError { status: u32 },
    /// The server refused an import.
    ImportRejected { busid: String, status: u32 },
    /// The server accepted an import without describing the device.
    ImportMissingDevice,
    /// The text is no bus ID.
    InvalidBusId(String),
    /// There is no free virtual port for the speed.
    NoFreePort { speed: u32 },
    /// No device is attached to the port.
    PortNotAttached { port: u32 },
    /// The driver for virtual ports is not there.
    VhciNotAvailable { reason: String },
    /// Devices cannot be imported on this platform.
    PlatformNotSupported,
    /// TLS cannot be set up.
    Tls(String),
    /// The list of virtual ports cannot be understood.
    VhciParseError { reason: String },
    /// A storage device did not do what it was asked.
    MassStorage(String),
    /// A network device did not do what it was asked.
    Network(String),
    /// An audio device did not do what it was asked.
    Audio(String),
    /// An input device did not do what it was asked.
    Hid(String),
    /// A serial device did not do what it was asked.
    Serial(String),
    /// The macOS driver refused a call.
    IOKit { code: i32, message: String },
}

impl ClientError {
    /// The text of the error, for every error that holds no other error.
    pub open spec fn text(self) -> Seq<char> {
        match self {
            ClientError::Io(_) => Seq::empty(),
            ClientError::Protocol(e) => "protocol error: "@ + e.text(),
            ClientError::ConnectTimeout { addr, timeout_secs } => "connection to "@ + addr.text()
                + " timed out after "@ + decimal(timeout_secs as nat) + "s"@,
            ClientError::DevlistError { status } => "remote server returned error status "@
                + decimal(status as nat) + " for device list"@,
            ClientError::ImportRejected { busid, status } =>
                "remote server rejected import of bus ID '"@ + busid@ + "' with status "@ + decimal(
                status as nat,
            ),
            ClientError::ImportMissingDevice => "import reply missing device descriptor"@,
            ClientError::InvalidBusId(s) => "invalid bus ID: "@ + s@,
            ClientError::NoFreePort { speed } => "no free VHCI port available for speed "@
                + decimal(speed as nat),
            ClientError::PortNotAttached { port } => "port "@ + decimal(port as nat)
                + " is not attached"@,
            ClientError::VhciNotAvailable { reason } => "VHCI driver not available: "@ + reason@,
            ClientError::PlatformNotSupported =>
                "client import not supported on this platform yet"@,
            ClientError::Tls(s) => "TLS error: "@ + s@,
            ClientError::VhciParseError { reason } => "failed to parse VHCI status: "@ + reason@,
            ClientError::MassStorage(s) => "mass storage error: "@ + s@,
            ClientError::Network(s) => "network error: "@ + s@,
            ClientError::Audio(s) => "audio error: "@ + s@,
            ClientError::Hid(s) => "HID error: "@ + s@,
            ClientError::Serial(s) => "serial error: "@ + s@,
            ClientError::IOKit { code, message } => "IOKit error "@ + signed_decimal(code as int)
                + ": "@ + message@,
        }
    }

    /// The text of the error. That of an I/O error is a fixed prefix and the
    /// text that the error gives of itself.
    pub fn message(&self) -> (s: String)
        ensures
            match *self {
                ClientError::Io(e) => exists|t: String|
                    #![auto]
                    to_string_from_display_ensures::<std::io::Error>(&e, t) && s@
                        == "I/O error: "@ + t@,
                ClientError::Protocol(ProtocolError::Io(e)) => exists|t: String|
                    #![auto]
                    to_string_from_display_ensures::<std::io::Error>(&e, t) && s@
                        == "protocol error: "@ + ("I/O error: "@ + t@),
                _ => s@ == self.text(),
            },
    {
        match self {
            ClientError::Io(e) => "I/O error: ".to_owned().concat(e.to_string().as_str()),
            ClientError::Protocol(e) => "protocol error: ".to_owned().concat(e.message().as_str()),
            ClientError::ConnectTimeout { addr, timeout_secs } => "connection to ".to_owned().concat(
                addr.to_text().as_str(),
            ).concat(" timed out after ").concat(decimal_string(*timeout_secs).as_str()).concat(
                "s",
            ),
            ClientError::DevlistError { status } =>
                "remote server returned error status ".to_owned().concat(
                decimal_string(*status as u64).as_str(),
            ).concat(" for device list"),
            ClientError::ImportRejected { busid, status } =>
                "remote server rejected import of bus ID '".to_owned().concat(
                busid.as_str(),
            ).concat("' with status ").concat(decimal_string(*status as u64).as_str()),
            ClientError::ImportMissingDevice => "import reply missing device descriptor".to_owned(),
            ClientError::InvalidBusId(t) => "invalid bus ID: ".to_owned().concat(t.as_str()),
            ClientError::NoFreePort { speed } =>
                "no free VHCI port available for speed ".to_owned().concat(
                decimal_string(*speed as u64).as_str(),
            ),
            ClientError::PortNotAttached { port } => "port ".to_owned().concat(
                decimal_string(*port as u64).as_str(),
            ).concat(" is not attached"),
            ClientError::VhciNotAvailable { reason } =>
                "VHCI driver not available: ".to_owned().concat(reason.as_str()),
            ClientError::PlatformNotSupported =>
                "client import not supported on this platform yet".to_owned(),
            ClientError::Tls(t) => "TLS error: ".to_owned().concat(t.as_str()),
            ClientError::VhciParseError { reason } =>
                "failed to parse VHCI status: ".to_owned().concat(reason.as_str()),
            ClientError::MassStorage(t) => "mass storage error: ".to_owned().concat(t.as_str()),
            ClientError::Network(t) => "network error: ".to_owned().concat(t.as_str()),
            ClientError::Audio(t) => "audio error: ".to_owned().concat(t.as_str()),
            ClientError::Hid(t) => "HID error: ".to_owned().concat(t.as_str()),
            ClientError::Serial(t) => "serial error: ".to_owned().concat(t.as_str()),
            ClientError::IOKit { code, message } => "IOKit error ".to_owned().concat(
                signed_decimal_string(*code as i64).as_str(),
            ).concat(": ").concat(message.as_str()),
        }
    }
}

} // verus!
