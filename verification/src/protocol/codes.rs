//! Protocol constants and message codes.

use vstd::prelude::*;

verus! {

/// The protocol version, in every discovery message.
pub const USBIP_VERSION: u16 = 0x0111;

/// The TCP port of a USB/IP server.
pub const USBIP_PORT: u16 = 3240;

/// The codes of the discovery messages.
#[derive(Debug, Clone, Copy, PartialEq, Eq, Structural)]
pub enum OpCode {
    /// Ask for the list of exported devices.
    OpReqDevlist,
    /// The list of exported devices.
    OpRepDevlist,
    /// Ask to import a device.
    OpReqImport,
    /// The answer to an import.
    OpRepImport,
}

impl OpCode {
    /// The number that stands for the code on the wire.
    pub open spec fn spec_code(self) -> u16 {
        match self {
            OpCode::OpReqDevlist => 0x8005,
            OpCode::OpRepDevlist => 0x0005,
            OpCode::OpReqImport => 0x8003,
            OpCode::OpRepImport => 0x0003,
        }
    }

    /// The number that stands for the code on the wire.
    pub fn code(self) -> (raw: u16)
        ensures
            raw == self.spec_code(),
    {
        match self {
            OpCode::OpReqDevlist => 0x8005,
            OpCode::OpRepDevlist => 0x0005,
            OpCode::OpReqImport => 0x8003,
            OpCode::OpRepImport => 0x0003,
        }
    }

    /// The code that a number stands for, if any.
    pub fn from_raw(value: u16) -> (r: Option<Self>)
        ensures
            match r {
                Some(c) => c.spec_code() == value,
                None => forall|c: OpCode| c.spec_code() != value,
            },
    {
        match value {
            0x8005 => Some(OpCode::OpReqDevlist),
            0x0005 => Some(OpCode::OpRepDevlist),
            0x8003 => Some(OpCode::OpReqImport),
            0x0003 => Some(OpCode::OpRepImport),
            _ => None,
        }
    }
}

/// The codes of the messages of an attached device.
#[derive(Debug, Clone, Copy, PartialEq, Eq, Structural)]
pub enum Command {
    /// Submit a request block.
    CmdSubmit,
    /// Cancel a submitted request block.
    CmdUnlink,
    /// The result of a request block.
    RetSubmit,
    /// The result of a cancellation.
    RetUnlink,
}

impl Command {
    /// The number that stands for the command on the wire.
    pub open spec fn spec_code(self) -> u32 {
        match self {
            Command::CmdSubmit => 1,
            Command::CmdUnlink => 2,
            Command::RetSubmit => 3,
            Command::RetUnlink => 4,
        }
    }

    /// The number that stands for the command on the wire.
    pub fn code(self) -> (raw: u32)
        ensures
            raw == self.spec_code(),
    {
        match self {
            Command::CmdSubmit => 1,
            Command::CmdUnlink => 2,
            Command::RetSubmit => 3,
            Command::RetUnlink => 4,
        }
    }

    /// The command that a number stands for, if any.
    pub fn from_raw(value: u32) -> (r: Option<Self>)
        ensures
            match r {
                Some(c) => c.spec_code() == value,
                None => forall|c: Command| c.spec_code() != value,
            },
    {
        match value {
            1 => Some(Command::CmdSubmit),
            2 => Some(Command::CmdUnlink),
            3 => Some(Command::RetSubmit),
            4 => Some(Command::RetUnlink),
            _ => None,
        }
    }
}

/// The numbers of the messages: those of a request and of its answer differ in
/// the top bit alone, and lists and imports have their own.
pub proof fn law_codes()
    ensures
        USBIP_VERSION == 0x0111,
        OpCode::OpRepDevlist.spec_code() == 0x0005,
        OpCode::OpRepImport.spec_code() == 0x0003,
        OpCode::OpReqDevlist.spec_code() == OpCode::OpRepDevlist.spec_code() + 0x8000,
        OpCode::OpReqImport.spec_code() == OpCode::OpRepImport.spec_code() + 0x8000,
        Command::CmdSubmit.spec_code() == 1,
        Command::CmdUnlink.spec_code() == 2,
        Command::RetSubmit.spec_code() == Command::CmdSubmit.spec_code() + 2,
        Command::RetUnlink.spec_code() == Command::CmdUnlink.spec_code() + 2,
{
}

} // verus!
