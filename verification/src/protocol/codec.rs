//! Reading and writing messages over a stream: what to do next with the bytes
//! that have arrived, and what to send.

use vstd::prelude::*;

use crate::endian::{be16_at, be32_at};
use crate::protocol::buf::{get_u16, get_u32};
use crate::protocol::codes::{Command, OpCode, USBIP_VERSION};
use crate::protocol::device::{device_with_interfaces_decoding, UsbInterface};
use crate::protocol::discovery::{
    devices_decoding, law_rep_devlist_round_trip, law_rep_import_round_trip,
    law_req_devlist_round_trip, law_req_import_round_trip, lemma_op_header, listable, op_header,
    OpMessage, OpRepDevlist, OpRepDevlistModel, OpRepImport, OpRepImportModel,
    OpReqDevlist, OpReqImport,
};
use crate::protocol::error::ProtocolError;
use crate::protocol::urb::{
    header_at, law_cmd_submit_round_trip, law_cmd_unlink_round_trip, law_ret_submit_round_trip,
    law_ret_unlink_round_trip, CmdSubmit, CmdSubmitModel, CmdUnlink, RetSubmit, RetSubmitModel,
    RetUnlink, UrbMessage, HEADER_BASIC_SIZE, MAX_DEVICES_IN_DEVLIST,
};
use crate::protocol::wire::{too_short, WireFormat};

verus! {

/// What to do after some bytes of a message have arrived.
#[derive(Debug)]
pub enum ReadStep<T> {
    /// Read this many more bytes, and look again.
    NeedMore(usize),
    /// The message is complete.
    Message(T),
    /// The bytes are no message.
    Failed(ProtocolError),
}

/// The step that a read calls for: a message or an error is final, and where
/// the bytes end too early the missing ones are asked for.
pub open spec fn step_for<M>(read: Result<M, ProtocolError>) -> ReadStep<M> {
    match read {
        Ok(m) => ReadStep::Message(m),
        Err(ProtocolError::BufferTooShort { needed, available }) => ReadStep::NeedMore(
            (needed - available) as usize,
        ),
        Err(e) => ReadStep::Failed(e),
    }
}

/// What a discovery message says.
pub enum OpMessageModel {
    ReqDevlist,
    RepDevlist(OpRepDevlistModel),
    ReqImport(Seq<u8>),
    RepImport(OpRepImportModel),
}

impl View for OpMessage {
    type V = OpMessageModel;

    open spec fn view(&self) -> OpMessageModel {
        match self {
            OpMessage::ReqDevlist(_) => OpMessageModel::ReqDevlist,
            OpMessage::RepDevlist(m) => OpMessageModel::RepDevlist(m.model()),
            OpMessage::ReqImport(m) => OpMessageModel::ReqImport(m.model()),
            OpMessage::RepImport(m) => OpMessageModel::RepImport((**m).model()),
        }
    }
}

/// The bytes of a discovery message.
pub open spec fn op_message_encoding(m: OpMessageModel) -> Seq<u8> {
    match m {
        OpMessageModel::ReqDevlist => OpReqDevlist::encoding(OpReqDevlist),
        OpMessageModel::RepDevlist(m) => OpRepDevlist::encoding(m),
        OpMessageModel::ReqImport(m) => OpReqImport::encoding(m),
        OpMessageModel::RepImport(m) => OpRepImport::encoding(m),
    }
}

/// What is read as a discovery message of any kind, and how many bytes are
/// read. The version and the code are looked at as soon as they are there.
pub open spec fn op_message_decoding(b: Seq<u8>) -> (Result<OpMessageModel, ProtocolError>, int) {
    if b.len() < 4 {
        (Err(too_short(4, b.len() as int)), 0)
    } else if be16_at(b, 0) != USBIP_VERSION {
        (Err(ProtocolError::UnsupportedVersion(be16_at(b, 0))), 4)
    } else if be16_at(b, 2) == OpCode::OpReqDevlist.spec_code() {
        match OpReqDevlist::decoding(b) {
            (Ok(_), n) => (Ok(OpMessageModel::ReqDevlist), n),
            (Err(e), n) => (Err(e), n),
        }
    } else if be16_at(b, 2) == OpCode::OpRepDevlist.spec_code() {
        match OpRepDevlist::decoding(b) {
            (Ok(m), n) => (Ok(OpMessageModel::RepDevlist(m)), n),
            (Err(e), n) => (Err(e), n),
        }
    } else if be16_at(b, 2) == OpCode::OpReqImport.spec_code() {
        match OpReqImport::decoding(b) {
            (Ok(m), n) => (Ok(OpMessageModel::ReqImport(m)), n),
            (Err(e), n) => (Err(e), n),
        }
    } else if be16_at(b, 2) == OpCode::OpRepImport.spec_code() {
        match OpRepImport::decoding(b) {
            (Ok(m), n) => (Ok(OpMessageModel::RepImport(m)), n),
            (Err(e), n) => (Err(e), n),
        }
    } else {
        (Err(ProtocolError::InvalidOpCode(be16_at(b, 2))), 4)
    }
}

/// What a message of an attached device says.
pub enum UrbMessageModel {
    CmdSubmit(CmdSubmitModel),
    RetSubmit(RetSubmitModel),
    CmdUnlink(CmdUnlink),
    RetUnlink(RetUnlink),
}

impl View for UrbMessage {
    type V = UrbMessageModel;

    open spec fn view(&self) -> UrbMessageModel {
        match self {
            UrbMessage::CmdSubmit(m) => UrbMessageModel::CmdSubmit(m@),
            UrbMessage::RetSubmit(m) => UrbMessageModel::RetSubmit(m@),
            UrbMessage::CmdUnlink(m) => UrbMessageModel::CmdUnlink(*m),
            UrbMessage::RetUnlink(m) => UrbMessageModel::RetUnlink(*m),
        }
    }
}

/// The bytes of a message of an attached device.
pub open spec fn urb_message_encoding(m: UrbMessageModel) -> Seq<u8> {
    match m {
        UrbMessageModel::CmdSubmit(m) => CmdSubmit::encoding(m),
        UrbMessageModel::RetSubmit(m) => RetSubmit::encoding(m),
        UrbMessageModel::CmdUnlink(m) => CmdUnlink::encoding(m),
        UrbMessageModel::RetUnlink(m) => RetUnlink::encoding(m),
    }
}

/// What is read as a message of an attached device, and how many bytes are
/// read. The command is looked at as soon as the header is there.
pub open spec fn urb_message_decoding(b: Seq<u8>) -> (Result<UrbMessageModel, ProtocolError>, int) {
    if b.len() < 20 {
        (Err(too_short(20, b.len() as int)), 0)
    } else if be32_at(b, 0) == Command::CmdSubmit.spec_code() {
        match CmdSubmit::decoding(b) {
            (Ok(m), n) => (Ok(UrbMessageModel::CmdSubmit(m)), n),
            (Err(e), n) => (Err(e), n),
        }
    } else if be32_at(b, 0) == Command::RetSubmit.spec_code() {
        match RetSubmit::decoding(b) {
            (Ok(m), n) => (Ok(UrbMessageModel::RetSubmit(m)), n),
            (Err(e), n) => (Err(e), n),
        }
    } else if be32_at(b, 0) == Command::CmdUnlink.spec_code() {
        match CmdUnlink::decoding(b) {
            (Ok(m), n) => (Ok(UrbMessageModel::CmdUnlink(m)), n),
            (Err(e), n) => (Err(e), n),
        }
    } else if be32_at(b, 0) == Command::RetUnlink.spec_code() {
        match RetUnlink::decoding(b) {
            (Ok(m), n) => (Ok(UrbMessageModel::RetUnlink(m)), n),
            (Err(e), n) => (Err(e), n),
        }
    } else {
        (Err(ProtocolError::InvalidCommand(be32_at(b, 0))), 20)
    }
}

/// A step says what `expected` says.
pub open spec fn op_step_is(r: ReadStep<OpMessage>, expected: ReadStep<OpMessageModel>) -> bool {
    match r {
        ReadStep::NeedMore(n) => expected == ReadStep::<OpMessageModel>::NeedMore(n),
        ReadStep::Message(m) => expected == ReadStep::Message(m@),
        ReadStep::Failed(e) => expected == ReadStep::<OpMessageModel>::Failed(e),
    }
}

/// A step says what `expected` says.
pub open spec fn urb_step_is(r: ReadStep<UrbMessage>, expected: ReadStep<UrbMessageModel>) -> bool {
    match r {
        ReadStep::NeedMore(n) => expected == ReadStep::<UrbMessageModel>::NeedMore(n),
        ReadStep::Message(m) => expected == ReadStep::Message(m@),
        ReadStep::Failed(e) => expected == ReadStep::<UrbMessageModel>::Failed(e),
    }
}

/// Whether the next part of the message is there, and if not how many bytes
/// are missing.
fn failure_step<T>(e: ProtocolError) -> (r: ReadStep<T>)
    requires
        e matches ProtocolError::BufferTooShort { needed, available } ==> needed >= available,
    ensures
        match e {
            ProtocolError::BufferTooShort { needed, available } => r == ReadStep::<T>::NeedMore(
                (needed - available) as usize,
            ),
            _ => r == ReadStep::<T>::Failed(e),
        },
{
    match e {
        ProtocolError::BufferTooShort { needed, available } => ReadStep::NeedMore(
            needed - available,
        ),
        e => ReadStep::Failed(e),
    }
}

/// Look at the bytes of a discovery message that have arrived.
pub fn read_op_message(received: &[u8]) -> (r: ReadStep<OpMessage>)
    ensures
        op_step_is(r, step_for(op_message_decoding(received@).0)),
{
    let n: usize = received.len();
    proof {
        lemma_op_short(received@);
    }
    if n < 4 {
        return ReadStep::NeedMore(4 - n);
    }
    let mut head: &[u8] = received;
    let version = get_u16(&mut head);
    if version != USBIP_VERSION {
        return ReadStep::Failed(ProtocolError::UnsupportedVersion(version));
    }
    let raw = get_u16(&mut head);
    let mut all: &[u8] = received;
    match OpCode::from_raw(raw) {
        Some(OpCode::OpReqDevlist) => match OpReqDevlist::decode(&mut all) {
            Ok(m) => ReadStep::Message(OpMessage::ReqDevlist(m)),
            Err(e) => failure_step(e),
        },
        Some(OpCode::OpRepDevlist) => match OpRepDevlist::decode(&mut all) {
            Ok(m) => ReadStep::Message(OpMessage::RepDevlist(m)),
            Err(e) => failure_step(e),
        },
        Some(OpCode::OpReqImport) => match OpReqImport::decode(&mut all) {
            Ok(m) => ReadStep::Message(OpMessage::ReqImport(m)),
            Err(e) => failure_step(e),
        },
        Some(OpCode::OpRepImport) => match OpRepImport::decode(&mut all) {
            Ok(m) => ReadStep::Message(OpMessage::RepImport(Box::new(m))),
            Err(e) => failure_step(e),
        },
        None => {
            proof {
                assert(OpCode::OpReqDevlist.spec_code() != raw);
                assert(OpCode::OpRepDevlist.spec_code() != raw);
                assert(OpCode::OpReqImport.spec_code() != raw);
                assert(OpCode::OpRepImport.spec_code() != raw);
            }
            ReadStep::Failed(ProtocolError::InvalidOpCode(raw))
        },
    }
}

/// Append the bytes of a discovery message.
pub fn write_op_message(buf: &mut Vec<u8>, msg: &OpMessage)
    ensures
        final(buf)@ == old(buf)@ + op_message_encoding(msg@),
{
    match msg {
        OpMessage::ReqDevlist(m) => m.encode(buf),
        OpMessage::RepDevlist(m) => m.encode(buf),
        OpMessage::ReqImport(m) => m.encode(buf),
        OpMessage::RepImport(m) => (**m).encode(buf),
    }
}

/// Look at the bytes of a message of an attached device that have arrived.
pub fn read_urb_message(received: &[u8]) -> (r: ReadStep<UrbMessage>)
    ensures
        urb_step_is(r, step_for(urb_message_decoding(received@).0)),
{
    if received.len() < HEADER_BASIC_SIZE {
        return ReadStep::NeedMore(HEADER_BASIC_SIZE - received.len());
    }
    let mut head: &[u8] = received;
    let raw = get_u32(&mut head);
    let mut all: &[u8] = received;
    match Command::from_raw(raw) {
        Some(Command::CmdSubmit) => match CmdSubmit::decode(&mut all) {
            Ok(m) => ReadStep::Message(UrbMessage::CmdSubmit(m)),
            Err(e) => failure_step(e),
        },
        Some(Command::RetSubmit) => match RetSubmit::decode(&mut all) {
            Ok(m) => ReadStep::Message(UrbMessage::RetSubmit(m)),
            Err(e) => failure_step(e),
        },
        Some(Command::CmdUnlink) => match CmdUnlink::decode(&mut all) {
            Ok(m) => ReadStep::Message(UrbMessage::CmdUnlink(m)),
            Err(e) => failure_step(e),
        },
        Some(Command::RetUnlink) => match RetUnlink::decode(&mut all) {
            Ok(m) => ReadStep::Message(UrbMessage::RetUnlink(m)),
            Err(e) => failure_step(e),
        },
        None => {
            proof {
                assert(Command::CmdSubmit.spec_code() != raw);
                assert(Command::RetSubmit.spec_code() != raw);
                assert(Command::CmdUnlink.spec_code() != raw);
                assert(Command::RetUnlink.spec_code() != raw);
            }
            ReadStep::Failed(ProtocolError::InvalidCommand(raw))
        },
    }
}

/// Append the bytes of a message of an attached device.
pub fn write_urb_message(buf: &mut Vec<u8>, msg: &UrbMessage)
    ensures
        final(buf)@ == old(buf)@ + urb_message_encoding(msg@),
{
    match msg {
        UrbMessage::CmdSubmit(m) => m.encode(buf),
        UrbMessage::RetSubmit(m) => m.encode(buf),
        UrbMessage::CmdUnlink(m) => m.encode(buf),
        UrbMessage::RetUnlink(m) => m.encode(buf),
    }
}

/// Where devices end too early, more is needed than there is.
proof fn lemma_devices_short(b: Seq<u8>, pos: int, n: nat)
    requires
        0 <= pos <= b.len() <= usize::MAX,
    ensures
        devices_decoding(b, pos, n).0 matches Err(
            ProtocolError::BufferTooShort { needed, available },
        ) ==> needed > available,
    decreases n,
{
    if n > 0 {
        let k = device_with_interfaces_decoding(b.skip(pos)).1;
        if device_with_interfaces_decoding(b.skip(pos)).0 is Ok {
            lemma_devices_short(b, pos + k, (n - 1) as nat);
        }
    }
}

/// Where a discovery message ends too early, more is needed than there is.
proof fn lemma_op_short(b: Seq<u8>)
    requires
        b.len() <= usize::MAX,
    ensures
        op_message_decoding(b).0 matches Err(
            ProtocolError::BufferTooShort { needed, available },
        ) ==> needed > available,
        OpRepDevlist::decoding(b).0 matches Err(
            ProtocolError::BufferTooShort { needed, available },
        ) ==> needed > available,
{
    if b.len() >= 12 {
        lemma_devices_short(b, 12, be32_at(b, 8) as nat);
    }
}

/// A discovery message that a reader understands as it was meant.
pub open spec fn op_message_readable(m: OpMessageModel) -> bool {
    match m {
        OpMessageModel::ReqDevlist => true,
        OpMessageModel::RepDevlist(m) => listable(m.devices) && m.devices.len()
            <= MAX_DEVICES_IN_DEVLIST,
        OpMessageModel::ReqImport(busid) => busid.len() == 32,
        OpMessageModel::RepImport(m) => {
            &&& m.device is Some <==> m.status == 0
            &&& m.device matches Some(d) ==> d.well_sized() && d.interfaces == Seq::<
                UsbInterface,
            >::empty()
        },
    }
}

/// The version and the code stand at the front of every discovery message.
proof fn lemma_op_front(code: OpCode, status: u32, tail: Seq<u8>)
    ensures
        be16_at(op_header(code, status) + tail, 0) == USBIP_VERSION,
        be16_at(op_header(code, status) + tail, 2) == code.spec_code(),
        op_header(code, status).len() == 8,
{
    lemma_op_header(code, status, tail);
}

/// A discovery message is read back as it was written, and to its end,
/// whatever follows.
pub proof fn law_op_message_round_trip(m: OpMessageModel, rest: Seq<u8>)
    requires
        op_message_readable(m),
    ensures
        op_message_decoding(op_message_encoding(m) + rest) == (
            Ok::<OpMessageModel, ProtocolError>(m),
            op_message_encoding(m).len() as int,
        ),
{
    let b = op_message_encoding(m) + rest;
    match m {
        OpMessageModel::ReqDevlist => {
            lemma_op_front(OpCode::OpReqDevlist, 0, rest);
            law_req_devlist_round_trip(rest);
        },
        OpMessageModel::RepDevlist(d) => {
            let tail = b.skip(8);
            let h = op_header(OpCode::OpRepDevlist, d.status);
            lemma_op_front(OpCode::OpRepDevlist, d.status, tail);
            assert(b =~= h + tail);
            law_rep_devlist_round_trip(d, rest);
        },
        OpMessageModel::ReqImport(busid) => {
            let tail = busid + rest;
            lemma_op_front(OpCode::OpReqImport, 0, tail);
            assert(b =~= op_header(OpCode::OpReqImport, 0) + tail);
            law_req_import_round_trip(busid, rest);
        },
        OpMessageModel::RepImport(d) => {
            let tail = b.skip(8);
            lemma_op_front(OpCode::OpRepImport, d.status, tail);
            assert(b =~= op_header(OpCode::OpRepImport, d.status) + tail);
            law_rep_import_round_trip(d, rest);
        },
    }
}

/// A message of an attached device that a reader understands as it was meant.
pub open spec fn urb_message_readable(m: UrbMessageModel) -> bool {
    match m {
        UrbMessageModel::CmdSubmit(m) => m.consistent(),
        UrbMessageModel::RetSubmit(m) => m.consistent(),
        UrbMessageModel::CmdUnlink(m) => m.header.command == Command::CmdUnlink.spec_code(),
        UrbMessageModel::RetUnlink(m) => m.header.command == Command::RetUnlink.spec_code(),
    }
}

/// A message of an attached device is read back as it was written, and to its
/// end, whatever follows.
pub proof fn law_urb_message_round_trip(m: UrbMessageModel, rest: Seq<u8>)
    requires
        urb_message_readable(m),
    ensures
        urb_message_decoding(urb_message_encoding(m) + rest) == (
            Ok::<UrbMessageModel, ProtocolError>(m),
            urb_message_encoding(m).len() as int,
        ),
{
    let b = urb_message_encoding(m) + rest;
    match m {
        UrbMessageModel::CmdSubmit(d) => {
            law_cmd_submit_round_trip(d, rest);
            lemma_command_of(CmdSubmit::decoding(b).0 is Ok, b, Command::CmdSubmit);
        },
        UrbMessageModel::RetSubmit(d) => {
            law_ret_submit_round_trip(d, rest);
            lemma_command_of(RetSubmit::decoding(b).0 is Ok, b, Command::RetSubmit);
        },
        UrbMessageModel::CmdUnlink(d) => {
            law_cmd_unlink_round_trip(d, rest);
            lemma_command_of(CmdUnlink::decoding(b).0 is Ok, b, Command::CmdUnlink);
        },
        UrbMessageModel::RetUnlink(d) => {
            law_ret_unlink_round_trip(d, rest);
            lemma_command_of(RetUnlink::decoding(b).0 is Ok, b, Command::RetUnlink);
        },
    }
}

/// Bytes that are read as a message of a kind begin with its command.
proof fn lemma_command_of(read: bool, b: Seq<u8>, c: Command)
    requires
        read == match c {
            Command::CmdSubmit => CmdSubmit::decoding(b).0 is Ok,
            Command::RetSubmit => RetSubmit::decoding(b).0 is Ok,
            Command::CmdUnlink => CmdUnlink::decoding(b).0 is Ok,
            Command::RetUnlink => RetUnlink::decoding(b).0 is Ok,
        },
    ensures
        read ==> be32_at(b, 0) == c.spec_code() && b.len() >= 20,
{
}

/// A reader never takes bytes of the next message: where `n` bytes are asked
/// for, a message that is complete after more bytes ends no earlier than after
/// these `n`.
pub proof fn law_urb_reader_stops_at_end(b: Seq<u8>, ext: Seq<u8>)
    requires
        b.len() + ext.len() <= usize::MAX,
    ensures
        match step_for(urb_message_decoding(b).0) {
            ReadStep::NeedMore(n) => n > 0 && (urb_message_decoding(b + ext).0 is Ok
                ==> urb_message_decoding(b + ext).1 >= b.len() + n),
            _ => true,
        },
{
    let c = b + ext;
    if b.len() >= 20 {
        assert(header_at(c) == header_at(b));
        if b.len() >= 48 {
            assert(be32_at(c, 24) == be32_at(b, 24));
            assert(be32_at(c, 32) == be32_at(b, 32));
            assert(c.skip(48) =~= b.skip(48) + ext);
        }
    }
}

/// A reader never takes bytes of the next message: where `n` bytes are asked
/// for, a message that is complete after more bytes ends no earlier than after
/// these `n`.
pub proof fn law_op_reader_stops_at_end(b: Seq<u8>, ext: Seq<u8>)
    requires
        b.len() + ext.len() <= usize::MAX,
    ensures
        match step_for(op_message_decoding(b).0) {
            ReadStep::NeedMore(n) => n > 0 && (op_message_decoding(b + ext).0 is Ok
                ==> op_message_decoding(b + ext).1 >= b.len() + n),
            _ => true,
        },
{
    let c = b + ext;
    lemma_op_short(b);
    if c.len() >= 12 {
        lemma_devices_end(c, 12, be32_at(c, 8) as nat);
    }
    if b.len() >= 4 {
        assert(be16_at(c, 0) == be16_at(b, 0));
        assert(be16_at(c, 2) == be16_at(b, 2));
        if b.len() >= 8 {
            assert(be32_at(c, 4) == be32_at(b, 4));
            assert(c.skip(8) =~= b.skip(8) + ext);
        }
        if b.len() >= 12 {
            assert(be32_at(c, 8) == be32_at(b, 8));
            lemma_devices_extend(b, ext, 12, be32_at(b, 8) as nat);
        }
    }
}

/// Reading devices does not go back.
proof fn lemma_devices_end(b: Seq<u8>, pos: int, n: nat)
    requires
        0 <= pos <= b.len(),
    ensures
        pos <= devices_decoding(b, pos, n).1 <= b.len(),
    decreases n,
{
    if n > 0 {
        let k = device_with_interfaces_decoding(b.skip(pos)).1;
        if device_with_interfaces_decoding(b.skip(pos)).0 is Ok {
            lemma_devices_end(b, pos + k, (n - 1) as nat);
        }
    }
}

proof fn lemma_devices_extend(b: Seq<u8>, ext: Seq<u8>, pos: int, n: nat)
    requires
        0 <= pos <= b.len(),
        b.len() + ext.len() <= usize::MAX,
    ensures
        (devices_decoding(b, pos, n).0 matches Err(
            ProtocolError::BufferTooShort { needed, available },
        ) && devices_decoding(b + ext, pos, n).0 is Ok) ==> devices_decoding(b + ext, pos, n).1
            >= b.len() + (devices_decoding(b, pos, n).0->Err_0->BufferTooShort_needed - devices_decoding(
            b,
            pos,
            n,
        ).0->Err_0->BufferTooShort_available),
    decreases n,
{
    if n > 0 {
        let c = b + ext;
        let s = b.skip(pos);
        let t = c.skip(pos);
        assert(t =~= s + ext);
        let k = device_with_interfaces_decoding(s).1;
        let kt = device_with_interfaces_decoding(t).1;
        if device_with_interfaces_decoding(s).0 is Ok {
            lemma_devices_extend(b, ext, pos + k, (n - 1) as nat);
            assert(kt == k);
        } else if device_with_interfaces_decoding(t).0 is Ok {
            lemma_devices_end(c, pos + kt, (n - 1) as nat);
        }
    }
}

} // verus!
