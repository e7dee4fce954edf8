//! The numbers of operations and commands.

use extender::protocol::codes::{Command, OpCode};

#[test]
fn test_op_code_values() {
    assert_eq!(OpCode::OpReqDevlist.code(), 0x8005);
    assert_eq!(OpCode::OpRepDevlist.code(), 0x0005);
    assert_eq!(OpCode::OpReqImport.code(), 0x8003);
    assert_eq!(OpCode::OpRepImport.code(), 0x0003);
}

#[test]
fn test_command_values() {
    assert_eq!(Command::CmdSubmit.code(), 0x0000_0001);
    assert_eq!(Command::CmdUnlink.code(), 0x0000_0002);
    assert_eq!(Command::RetSubmit.code(), 0x0000_0003);
    assert_eq!(Command::RetUnlink.code(), 0x0000_0004);
}

#[test]
fn test_op_code_from_raw() {
    assert_eq!(OpCode::from_raw(0x8005), Some(OpCode::OpReqDevlist));
    assert_eq!(OpCode::from_raw(0x0005), Some(OpCode::OpRepDevlist));
    assert_eq!(OpCode::from_raw(0x8003), Some(OpCode::OpReqImport));
    assert_eq!(OpCode::from_raw(0x0003), Some(OpCode::OpRepImport));
    assert_eq!(OpCode::from_raw(0xFFFF), None);
}

#[test]
fn test_command_from_raw() {
    assert_eq!(Command::from_raw(1), Some(Command::CmdSubmit));
    assert_eq!(Command::from_raw(2), Some(Command::CmdUnlink));
    assert_eq!(Command::from_raw(3), Some(Command::RetSubmit));
    assert_eq!(Command::from_raw(4), Some(Command::RetUnlink));
    assert_eq!(Command::from_raw(0), None);
    assert_eq!(Command::from_raw(5), None);
}
