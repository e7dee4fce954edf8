//! Protocol errors.

use vstd::prelude::*;
use vstd::string::*;

use crate::text::{decimal, decimal_string, hex_digits, hex_string};

verus! {

/// `std::io::Error`, carried unread.
#[verifier::external_type_specification]
#[verifier::external_body]
pub struct ExIoError(std::io::Error);

/// What can be wrong with a message.
#[derive(Debug)]
pub enum ProtocolError {
    /// The command code stands for no command, or for another than expected.
    InvalidCommand(u32),
    /// The op code stands for no discovery message, or for another than expected.
    InvalidOpCode(u16),
    /// The buffer ends before the part that was to be read next.
    BufferTooShort { needed: usize, available: usize },
    /// A bus ID does not fit its field.
    InvalidBusId(String),
    /// The protocol version is not 0x0111.
    UnsupportedVersion(u16),
    /// Reading or writing failed.
    Io(std::io::Error),
    /// The remote side answered with an error status.
    RemoteError(u32),
    /// The transfer buffer is longer than allowed.
    TransferTooLarge { length: u32, max: u32 },
    /// The device list is longer than allowed.
    TooManyDevices { count: u32, max: u32 },
    /// There are more isochronous packets than allowed.
    TooManyIsoPackets { count: u32, max: u32 },
}

impl ProtocolError {
    /// The text of the error, for every error that is not an I/O error.
    pub open spec fn text(self) -> Seq<char> {
        match self {
            ProtocolError::InvalidCommand(c) => "invalid command code: 0x"@ + hex_digits(
                c as nat,
                8,
            ),
            ProtocolError::InvalidOpCode(c) => "invalid op code: 0x"@ + hex_digits(c as nat, 4),
            ProtocolError::BufferTooShort { needed, available } => "buffer too short: need "@
                + decimal(needed as nat) + " bytes, have "@ + decimal(available as nat),
            ProtocolError::InvalidBusId(s) => "invalid bus ID: "@ + s@,
            ProtocolError::UnsupportedVersion(v) => "unsupported protocol version: 0x"@
                + hex_digits(v as nat, 4),
            ProtocolError::Io(_) => Seq::empty(),
            ProtocolError::RemoteError(s) => "remote status error: "@ + decimal(s as nat),
            ProtocolError::TransferTooLarge { length, max } => "transfer buffer too large: "@
                + decimal(length as nat) + " bytes (max "@ + decimal(max as nat) + ")"@,
            ProtocolError::TooManyDevices { count, max } => "too many devices in DEVLIST: "@
                + decimal(count as nat) + " (max "@ + decimal(max as nat) + ")"@,
            ProtocolError::TooManyIsoPackets { count, max } => "too many ISO packets: "@ + decimal(
                count as nat,
            ) + " (max "@ + decimal(max as nat) + ")"@,
        }
    }

    /// The text of the error. That of an I/O error is a fixed prefix and the
    /// text that the error gives of itself.
    pub fn message(&self) -> (s: String)
        ensures
            self is Io ==> exists|t: String|
                #![auto]
                to_string_from_display_ensures::<std::io::Error>(&self->Io_0, t) && s@
                    == "I/O error: "@ + t@,
            !(self is Io) ==> s@ == self.text(),
    {
        match self {
            ProtocolError::InvalidCommand(c) => "invalid command code: 0x".to_owned().concat(
                hex_string(*c, 8).as_str(),
            ),
            ProtocolError::InvalidOpCode(c) => "invalid op code: 0x".to_owned().concat(
                hex_string(*c as u32, 4).as_str(),
            ),
            ProtocolError::BufferTooShort { needed, available } => "buffer too short: need ".to_owned().concat(
                decimal_string(*needed as u64).as_str(),
            ).concat(" bytes, have ").concat(decimal_string(*available as u64).as_str()),
            ProtocolError::InvalidBusId(t) => "invalid bus ID: ".to_owned().concat(t.as_str()),
            ProtocolError::UnsupportedVersion(v) => "unsupported protocol version: 0x".to_owned().concat(
                hex_string(*v as u32, 4).as_str(),
            ),
            ProtocolError::Io(e) => "I/O error: ".to_owned().concat(e.to_string().as_str()),
            ProtocolError::RemoteError(t) => "remote status error: ".to_owned().concat(
                decimal_string(*t as u64).as_str(),
            ),
            ProtocolError::TransferTooLarge { length, max } => "transfer buffer too large: ".to_owned().concat(
                decimal_string(*length as u64).as_str(),
            ).concat(" bytes (max ").concat(decimal_string(*max as u64).as_str()).concat(")"),
            ProtocolError::TooManyDevices { count, max } => "too many devices in DEVLIST: ".to_owned().concat(
                decimal_string(*count as u64).as_str(),
            ).concat(" (max ").concat(decimal_string(*max as u64).as_str()).concat(")"),
            ProtocolError::TooManyIsoPackets { count, max } => "too many ISO packets: ".to_owned().concat(
                decimal_string(*count as u64).as_str(),
            ).concat(" (max ").concat(decimal_string(*max as u64).as_str()).concat(")"),
        }
    }
}

} // verus!
