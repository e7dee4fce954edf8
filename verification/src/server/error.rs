//! Errors of the exporting side.

use vstd::prelude::*;
use vstd::string::*;

use crate::protocol::error::ProtocolError;
use crate::text::{decimal, decimal_string};

verus! {

/// What can go wrong with a USB device.
#[derive(Debug, Clone, Copy, PartialEq, Eq, Structural)]
pub enum UsbError {
    Io,
    InvalidParam,
    Access,
    NoDevice,
    NotFound,
    Busy,
    Timeout,
    Overflow,
    Pipe,
    Interrupted,
    NoMem,
    NotSupported,
    BadDescriptor,
    Other,
}

impl UsbError {
    /// The text of the error.
    pub open spec fn text(self) -> Seq<char> {
        match self {
            UsbError::Io => "Input/Output Error"@,
            UsbError::InvalidParam => "Invalid parameter"@,
            UsbError::Access => "Access denied (insufficient permissions)"@,
            UsbError::NoDevice => "No such device (it may have been disconnected)"@,
            UsbError::NotFound => "Entity not found"@,
            UsbError::Busy => "Resource busy"@,
            UsbError::Timeout => "Operation timed out"@,
            UsbError::Overflow => "Overflow"@,
            UsbError::Pipe => "Pipe error"@,
            UsbError::Interrupted => "System call interrupted (perhaps due to signal)"@,
            UsbError::NoMem => "Insufficient memory"@,
            UsbError::NotSupported => "Operation not supported or unimplemented on this platform"@,
            UsbError::BadDescriptor => "Malformed descriptor"@,
            UsbError::Other => "Other error"@,
        }
    }

    /// The text of the error.
    pub fn message(&self) -> (s: &'static str)
        ensures
            s@ == self.text(),
    {
        match self {
            UsbError::Io => "Input/Output Error",
            UsbError::InvalidParam => "Invalid parameter",
            UsbError::Access => "Access denied (insufficient permissions)",
            UsbError::NoDevice => "No such device (it may have been disconnected)",
            UsbError::NotFound => "Entity not found",
            UsbError::Busy => "Resource busy",
            UsbError::Timeout => "Operation timed out",
            UsbError::Overflow => "Overflow",
            UsbError::Pipe => "Pipe error",
            UsbError::Interrupted => "System call interrupted (perhaps due to signal)",
            UsbError::NoMem => "Insufficient memory",
            UsbError::NotSupported => "Operation not supported or unimplemented on this platform",
            UsbError::BadDescriptor => "Malformed descriptor",
            UsbError::Other => "Other error",
        }
    }
}

/// Errors of the exporting side.
#[derive(Debug)]
pub enum ServerError {
    /// The USB library cannot be initialised.
    UsbContextInit(UsbError),
    /// The devices cannot be listed.
    Enumeration(UsbError),
    /// There is no such device.
    DeviceNotFound { bus_id: String },
    /// The device is in use.
    DeviceInUse { bus_id: String },
    /// The device cannot be opened.
    OpenDevice { bus_id: String, source: UsbError },
    /// The kernel driver cannot be detached.
    AutoDetach { bus_id: String, source: UsbError },
    /// An interface cannot be claimed.
    ClaimInterface { bus_id: String, interface: u8, source: UsbError },
    /// An interface cannot be released.
    ReleaseInterface { bus_id: String, interface: u8, source: UsbError },
    /// A transfer failed.
    Transfer(UsbError),
    /// A transfer took too long.
    Timeout,
    /// A device descriptor cannot be read.
    Descriptor(UsbError),
    /// A configuration descriptor cannot be read.
    ConfigDescriptor(UsbError),
    /// A value does not fit the protocol.
    Protocol(ProtocolError),
    /// The device is on offer already.
    DeviceAlreadyBound { bus_id: String },
    /// The device is not on offer.
    DeviceNotBound { bus_id: String },
    /// The listening socket cannot be bound.
    ListenerBind(std::io::Error),
    /// Reading or writing failed.
    Io(std::io::Error),
}

impl ServerError {
    /// The text of the error, for every error that holds no I/O error.
    pub open spec fn text(self) -> Seq<char> {
        match self {
            ServerError::UsbContextInit(e) => "failed to initialize USB context: "@ + e.text(),
            ServerError::Enumeration(e) => "failed to enumerate USB devices: "@ + e.text(),
            ServerError::DeviceNotFound { bus_id } => "device not found: "@ + bus_id@,
            ServerError::DeviceInUse { bus_id } => "device "@ + bus_id@ + " is in use by another process"@,
            ServerError::OpenDevice { bus_id, source } => "failed to open device "@ + bus_id@ + ": "@
                + source.text(),
            ServerError::AutoDetach { bus_id, source } => "failed to set auto-detach kernel driver on "@ + bus_id@ + ": "@
                + source.text(),
            ServerError::ClaimInterface { bus_id, interface, source } => "failed to claim interface "@ + decimal(
                interface as nat,
            ) + " on "@ + bus_id@ + ": "@ + source.text(),
            ServerError::ReleaseInterface { bus_id, interface, source } => "failed to release interface "@ + decimal(
                interface as nat,
            ) + " on "@ + bus_id@ + ": "@ + source.text(),
            ServerError::Transfer(e) => "USB transfer error: "@ + e.text(),
            ServerError::Timeout => "USB transfer timed out"@,
            ServerError::Descriptor(e) => "failed to read device descriptor: "@ + e.text(),
            ServerError::ConfigDescriptor(e) => "failed to read configuration descriptor: "@ + e.text(),
            ServerError::Protocol(e) => "protocol error: "@ + e.text(),
            ServerError::DeviceAlreadyBound { bus_id } => "device "@ + bus_id@ + " is already bound for export"@,
            ServerError::DeviceNotBound { bus_id } => "device "@ + bus_id@ + " is not bound for export"@,
            ServerError::ListenerBind(_) => Seq::empty(),
            ServerError::Io(_) => Seq::empty(),
        }
    }

    /// The text of the error. That of an I/O error is a fixed prefix and the
    /// text that the error gives of itself.
    pub fn message(&self) -> (s: String)
        ensures
            match *self {
                ServerError::ListenerBind(e) => exists|t: String|
                    #![auto]
                    to_string_from_display_ensures::<std::io::Error>(&e, t) && s@
                        == "failed to bind TCP listener: "@ + t@,
                ServerError::Io(e) => exists|t: String|
                    #![auto]
                    to_string_from_display_ensures::<std::io::Error>(&e, t) && s@
                        == "I/O error: "@ + t@,
                ServerError::Protocol(ProtocolError::Io(e)) => exists|t: String|
                    #![auto]
                    to_string_from_display_ensures::<std::io::Error>(&e, t) && s@
                        == "protocol error: "@ + ("I/O error: "@ + t@),
                _ => s@ == self.text(),
            },
    {
        match self {
            ServerError::UsbContextInit(e) => "failed to initialize USB context: ".to_owned().concat(e.message()),
            ServerError::Enumeration(e) => "failed to enumerate USB devices: ".to_owned().concat(e.message()),
            ServerError::DeviceNotFound { bus_id } => "device not found: ".to_owned().concat(
                bus_id.as_str(),
            ),
            ServerError::DeviceInUse { bus_id } => "device ".to_owned().concat(
                bus_id.as_str(),
            ).concat(" is in use by another process"),
            ServerError::OpenDevice { bus_id, source } => "failed to open device ".to_owned().concat(
                bus_id.as_str(),
            ).concat(": ").concat(source.message()),
            ServerError::AutoDetach { bus_id, source } => "failed to set auto-detach kernel driver on ".to_owned().concat(
                bus_id.as_str(),
            ).concat(": ").concat(source.message()),
            ServerError::ClaimInterface { bus_id, interface, source } => "failed to claim interface ".to_owned().concat(
                decimal_string(*interface as u64).as_str(),
            ).concat(" on ").concat(bus_id.as_str()).concat(": ").concat(source.message()),
            ServerError::ReleaseInterface { bus_id, interface, source } => "failed to release interface ".to_owned().concat(
                decimal_string(*interface as u64).as_str(),
            ).concat(" on ").concat(bus_id.as_str()).concat(": ").concat(source.message()),
            ServerError::Transfer(e) => "USB transfer error: ".to_owned().concat(e.message()),
            ServerError::Timeout => "USB transfer timed out".to_owned(),
            ServerError::Descriptor(e) => "failed to read device descriptor: ".to_owned().concat(e.message()),
            ServerError::ConfigDescriptor(e) => "failed to read configuration descriptor: ".to_owned().concat(e.message()),
            ServerError::Protocol(e) => "protocol error: ".to_owned().concat(e.message().as_str()),
            ServerError::DeviceAlreadyBound { bus_id } => "device ".to_owned().concat(
                bus_id.as_str(),
            ).concat(" is already bound for export"),
            ServerError::DeviceNotBound { bus_id } => "device ".to_owned().concat(
                bus_id.as_str(),
            ).concat(" is not bound for export"),
            ServerError::ListenerBind(e) => "failed to bind TCP listener: ".to_owned().concat(e.to_string().as_str()),
            ServerError::Io(e) => "I/O error: ".to_owned().concat(e.to_string().as_str()),
        }
    }
}

/// The negative errno value that the protocol uses as the status of a request
/// block for an error.
pub open spec fn errno_of(err: UsbError) -> int {
    match err {
        UsbError::Pipe => -32,
        UsbError::NoDevice => -19,
        UsbError::Timeout => -110,
        UsbError::Busy => -16,
        UsbError::Overflow => -75,
        UsbError::NotFound => -2,
        UsbError::Access => -13,
        UsbError::Io => -5,
        UsbError::InvalidParam => -22,
        UsbError::NotSupported => -95,
        UsbError::BadDescriptor => -5,
        UsbError::Interrupted => -4,
        UsbError::NoMem => -12,
        UsbError::Other => -5,
    }
}

/// The status of a request block for an error.
pub fn rusb_error_to_errno(err: &UsbError) -> (status: i32)
    ensures
        status == errno_of(*err),
{
    match err {
        UsbError::Pipe => -32,
        UsbError::NoDevice => -19,
        UsbError::Timeout => -110,
        UsbError::Busy => -16,
        UsbError::Overflow => -75,
        UsbError::NotFound => -2,
        UsbError::Access => -13,
        UsbError::Io => -5,
        UsbError::InvalidParam => -22,
        UsbError::NotSupported => -95,
        UsbError::BadDescriptor => -5,
        UsbError::Interrupted => -4,
        UsbError::NoMem => -12,
        UsbError::Other => -5,
    }
}

/// Each error has the status that the system has for it: a broken pipe for a
/// stalled endpoint, no device, a timeout, a busy device, an overflow and so on,
/// always below zero, and the one for input and output where none fits better.
pub proof fn law_statuses(err: UsbError, status: i32)
    requires
        call_ensures(rusb_error_to_errno, (&err,), status),
    ensures
        status == -32 <==> err == UsbError::Pipe,
        status == -19 <==> err == UsbError::NoDevice,
        status == -110 <==> err == UsbError::Timeout,
        status == -16 <==> err == UsbError::Busy,
        status == -75 <==> err == UsbError::Overflow,
        status == -2 <==> err == UsbError::NotFound,
        status == -13 <==> err == UsbError::Access,
        status == -22 <==> err == UsbError::InvalidParam,
        status == -95 <==> err == UsbError::NotSupported,
        status == -4 <==> err == UsbError::Interrupted,
        status == -12 <==> err == UsbError::NoMem,
        status == -5 <==> err == UsbError::Io || err == UsbError::BadDescriptor || err
            == UsbError::Other,
        status < 0,
{
}

/// The text of an error about a device names the device, and where an interface
/// is concerned, that one.
pub proof fn law_messages_name_the_device(
    bus_id: String,
    interface: u8,
    source: UsbError,
    reason: &'static str,
    missing: String,
    in_use: String,
    claim: String,
)
    requires
        call_ensures(ServerError::message, (&ServerError::DeviceNotFound { bus_id },), missing),
        call_ensures(ServerError::message, (&ServerError::DeviceInUse { bus_id },), in_use),
        call_ensures(
            ServerError::message,
            (&ServerError::ClaimInterface { bus_id, interface, source },),
            claim,
        ),
        call_ensures(UsbError::message, (&source,), reason),
    ensures
        missing@ == "device not found: "@ + bus_id@,
        in_use@ == "device "@ + bus_id@ + " is in use by another process"@,
        claim@ == "failed to claim interface "@ + decimal(interface as nat) + " on "@ + bus_id@
            + ": "@ + reason@,
{
}

} // verus!
