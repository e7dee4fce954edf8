//! Mass storage devices: commands in wrappers over bulk transfers, and blocks
//! read and written by them.

use vstd::prelude::*;
use vstd::slice::slice_to_vec;
use vstd::slice::slice_subrange;
use vstd::string::*;
use vstd::utf8::{decode_utf8, valid_utf8};

use crate::client::engine::devid_of;
use crate::client::error::ClientError;
use crate::client::transfer::{
    is_device_error, next_number, number_after, read_ret_submit, result_means, DeviceKind, Link,
};
use crate::endian::{
    be16, be32, be32_at, le32, le32_at, lemma_be32_at, lemma_le32_at, read_be32, read_le32,
};
use crate::protocol::buf::bytes_seq;
use crate::protocol::discovery::OpMessage;
use crate::protocol::urb::{CmdSubmit, UrbMessage};
use crate::scan::{trim, trimmed};
use crate::text::{
    chars_of, decimal, decimal_string, hex_digits_upper, hex_string_upper, string_of,
};

verus! {

/// The signature of a command wrapper.
pub const CBW_SIGNATURE: u32 = 0x4342_5355;

/// The signature of a status wrapper.
pub const CSW_SIGNATURE: u32 = 0x5342_5355;

/// Size of a command wrapper.
pub const CBW_SIZE: usize = 31;

/// Size of a status wrapper.
pub const CSW_SIZE: usize = 13;

/// The endpoint that data goes to.
pub const DEFAULT_EP_OUT: u8 = 0x02;

/// The endpoint that data comes from.
pub const DEFAULT_EP_IN: u8 = 0x81;

/// The way the data of a command goes.
#[derive(Debug, Clone, Copy, PartialEq, Eq, Structural)]
pub enum Direction {
    /// Out of the host.
    Out,
    /// Into the host.
    In,
}

/// How a command ended.
#[derive(Debug, Clone, Copy, PartialEq, Eq, Structural)]
pub enum CswStatus {
    Passed,
    Failed,
    PhaseError,
    Unknown(u8),
}

/// The status that a byte stands for.
pub open spec fn status_of(b: u8) -> CswStatus {
    if b == 0 {
        CswStatus::Passed
    } else if b == 1 {
        CswStatus::Failed
    } else if b == 2 {
        CswStatus::PhaseError
    } else {
        CswStatus::Unknown(b)
    }
}

/// The byte of a status.
pub open spec fn status_byte(s: CswStatus) -> u8 {
    match s {
        CswStatus::Passed => 0,
        CswStatus::Failed => 1,
        CswStatus::PhaseError => 2,
        CswStatus::Unknown(b) => b,
    }
}

/// A byte comes back from the status that it stands for.
pub proof fn law_status_round_trip(b: u8)
    ensures
        status_byte(status_of(b)) == b,
{
}

impl CswStatus {
    /// The status that a byte stands for.
    pub fn from_byte(b: u8) -> (s: Self)
        ensures
            s == status_of(b),
    {
        match b {
            0 => CswStatus::Passed,
            1 => CswStatus::Failed,
            2 => CswStatus::PhaseError,
            other => CswStatus::Unknown(other),
        }
    }

    /// The byte of a status.
    pub fn to_byte(self) -> (b: u8)
        ensures
            b == status_byte(self),
    {
        match self {
            CswStatus::Passed => 0,
            CswStatus::Failed => 1,
            CswStatus::PhaseError => 2,
            CswStatus::Unknown(b) => b,
        }
    }
}

/// The commands that are sent to a device.
#[derive(Debug, Clone, Copy, PartialEq, Eq, Structural)]
pub enum ScsiCommand {
    /// Is the device ready?
    TestUnitReady,
    /// What is the device?
    Inquiry,
    /// How many blocks are there, and how large?
    ReadCapacity10,
    /// Read blocks.
    Read10 { lba: u32, blocks: u16 },
    /// Write blocks.
    Write10 { lba: u32, blocks: u16 },
    /// What went wrong?
    RequestSense,
    /// What are the parameters?
    ModeSense6,
}

/// Bytes of a command block, and zeros up to 16 bytes.
pub open spec fn block(b: Seq<u8>) -> Seq<u8> {
    b + Seq::new((16 - b.len()) as nat, |i: int| 0u8)
}

impl ScsiCommand {
    /// The command block.
    pub open spec fn cdb(self) -> Seq<u8> {
        match self {
            ScsiCommand::TestUnitReady => block(Seq::empty()),
            ScsiCommand::Inquiry => block(seq![0x12u8, 0u8, 0u8, 0u8, 36u8]),
            ScsiCommand::ReadCapacity10 => block(seq![0x25u8]),
            ScsiCommand::Read10 { lba, blocks } => block(
                seq![0x28u8, 0u8] + be32(lba) + seq![0u8] + be16(blocks),
            ),
            ScsiCommand::Write10 { lba, blocks } => block(
                seq![0x2Au8, 0u8] + be32(lba) + seq![0u8] + be16(blocks),
            ),
            ScsiCommand::RequestSense => block(seq![0x03u8, 0u8, 0u8, 0u8, 18u8]),
            ScsiCommand::ModeSense6 => block(seq![0x1Au8, 0u8, 0x3Fu8, 0u8, 192u8]),
        }
    }

    /// How many bytes of the command block count.
    pub open spec fn length(self) -> u8 {
        match self {
            ScsiCommand::ReadCapacity10 => 10,
            ScsiCommand::Read10 { .. } => 10,
            ScsiCommand::Write10 { .. } => 10,
            _ => 6,
        }
    }

    /// The command block.
    pub fn encode_cdb(&self) -> (b: [u8; 16])
        ensures
            b@ == self.cdb(),
    {
        let b: [u8; 16] = match self {
            ScsiCommand::TestUnitReady => [0, 0, 0, 0, 0, 0, 0, 0, 0, 0, 0, 0, 0, 0, 0, 0],
            ScsiCommand::Inquiry => [0x12, 0, 0, 0, 36, 0, 0, 0, 0, 0, 0, 0, 0, 0, 0, 0],
            ScsiCommand::ReadCapacity10 => [0x25, 0, 0, 0, 0, 0, 0, 0, 0, 0, 0, 0, 0, 0, 0, 0],
            ScsiCommand::Read10 { lba, blocks } => transfer_block(0x28, *lba, *blocks),
            ScsiCommand::Write10 { lba, blocks } => transfer_block(0x2A, *lba, *blocks),
            ScsiCommand::RequestSense => [0x03, 0, 0, 0, 18, 0, 0, 0, 0, 0, 0, 0, 0, 0, 0, 0],
            ScsiCommand::ModeSense6 => [0x1A, 0, 0x3F, 0, 192, 0, 0, 0, 0, 0, 0, 0, 0, 0, 0, 0],
        };
        assert(b@ =~= self.cdb());
        b
    }

    /// How many bytes of the command block count.
    pub fn cdb_length(&self) -> (n: u8)
        ensures
            n == self.length(),
    {
        match self {
            ScsiCommand::TestUnitReady => 6,
            ScsiCommand::Inquiry => 6,
            ScsiCommand::ReadCapacity10 => 10,
            ScsiCommand::Read10 { .. } => 10,
            ScsiCommand::Write10 { .. } => 10,
            ScsiCommand::RequestSense => 6,
            ScsiCommand::ModeSense6 => 6,
        }
    }
}

fn transfer_block(code: u8, lba: u32, blocks: u16) -> (b: [u8; 16])
    ensures
        b@ == block(seq![code, 0u8] + be32(lba) + seq![0u8] + be16(blocks)),
{
    let b: [u8; 16] = [
        code,
        0,
        (lba / 0x1000000) as u8,
        ((lba / 0x10000) % 256) as u8,
        ((lba / 256) % 256) as u8,
        (lba % 256) as u8,
        0,
        (blocks / 256) as u8,
        (blocks % 256) as u8,
        0,
        0,
        0,
        0,
        0,
        0,
        0,
    ];
    assert(b@ =~= block(seq![code, 0u8] + be32(lba) + seq![0u8] + be16(blocks)));
    b
}

/// A command wrapper.
#[derive(Debug, Clone, PartialEq, Eq)]
pub struct Cbw {
    pub signature: u32,
    /// By which the status is matched to the command.
    pub tag: u32,
    /// How much data is to be transferred.
    pub data_transfer_length: u32,
    /// 0x80 where the data goes into the host, else 0.
    pub flags: u8,
    pub lun: u8,
    /// How many bytes of the command block count.
    pub cb_length: u8,
    /// The command block.
    pub cb: [u8; 16],
}

/// The bytes of a command wrapper.
pub open spec fn cbw_bytes(c: Cbw) -> Seq<u8> {
    le32(c.signature) + le32(c.tag) + le32(c.data_transfer_length) + seq![
        c.flags,
        c.lun,
        c.cb_length,
    ] + c.cb@
}

/// Bytes are those of a command wrapper.
pub open spec fn is_cbw(b: Seq<u8>, c: Cbw) -> bool {
    &&& c.signature == le32_at(b, 0)
    &&& c.tag == le32_at(b, 4)
    &&& c.data_transfer_length == le32_at(b, 8)
    &&& c.flags == b[12]
    &&& c.lun == b[13]
    &&& c.cb_length == b[14]
    &&& c.cb@ =~= b.subrange(15, 31)
}

impl Cbw {
    /// The bytes of the wrapper.
    pub fn to_bytes(&self) -> (b: [u8; 31])
        ensures
            b@ == cbw_bytes(*self),
    {
        let s: u32 = self.signature;
        let t: u32 = self.tag;
        let n: u32 = self.data_transfer_length;
        let b: [u8; 31] = [
            (s % 256) as u8,
            ((s / 256) % 256) as u8,
            ((s / 0x10000) % 256) as u8,
            (s / 0x1000000) as u8,
            (t % 256) as u8,
            ((t / 256) % 256) as u8,
            ((t / 0x10000) % 256) as u8,
            (t / 0x1000000) as u8,
            (n % 256) as u8,
            ((n / 256) % 256) as u8,
            ((n / 0x10000) % 256) as u8,
            (n / 0x1000000) as u8,
            self.flags,
            self.lun,
            self.cb_length,
            self.cb[0],
            self.cb[1],
            self.cb[2],
            self.cb[3],
            self.cb[4],
            self.cb[5],
            self.cb[6],
            self.cb[7],
            self.cb[8],
            self.cb[9],
            self.cb[10],
            self.cb[11],
            self.cb[12],
            self.cb[13],
            self.cb[14],
            self.cb[15],
        ];
        assert(b@ =~= cbw_bytes(*self));
        b
    }

    /// The wrapper that bytes stand for. Another signature is refused.
    pub fn from_bytes(buf: &[u8; 31]) -> (r: Result<Self, ClientError>)
        ensures
            match r {
                Ok(c) => is_cbw(buf@, c) && c.signature == CBW_SIGNATURE,
                Err(e) => le32_at(buf@, 0) != CBW_SIGNATURE && is_device_error(
                    e,
                    DeviceKind::MassStorage,
                    "invalid CBW signature: 0x"@ + hex_digits_upper(le32_at(buf@, 0) as nat, 8),
                ),
            },
    {
        let b = buf.as_slice();
        let signature: u32 = read_le32(b, 0);
        if signature != CBW_SIGNATURE {
            return Err(
                ClientError::MassStorage(
                    "invalid CBW signature: 0x".to_owned().concat(
                        hex_string_upper(signature, 8).as_str(),
                    ),
                ),
            );
        }
        let cb: [u8; 16] = [
            b[15],
            b[16],
            b[17],
            b[18],
            b[19],
            b[20],
            b[21],
            b[22],
            b[23],
            b[24],
            b[25],
            b[26],
            b[27],
            b[28],
            b[29],
            b[30],
        ];
        assert(cb@ =~= buf@.subrange(15, 31));
        Ok(
            Cbw {
                signature,
                tag: read_le32(b, 4),
                data_transfer_length: read_le32(b, 8),
                flags: b[12],
                lun: b[13],
                cb_length: b[14],
                cb,
            },
        )
    }
}

/// The bytes of a command wrapper are those of no other.
pub proof fn law_cbw_round_trip(c: Cbw)
    ensures
        cbw_bytes(c).len() == CBW_SIZE,
        is_cbw(cbw_bytes(c), c),
        forall|d: Cbw| is_cbw(cbw_bytes(c), d) ==> #[trigger] cbw_bytes(d) == cbw_bytes(c) && d.cb@
            == c.cb@ && d.tag == c.tag && d.signature == c.signature && d.data_transfer_length
            == c.data_transfer_length && d.flags == c.flags && d.lun == c.lun && d.cb_length
            == c.cb_length,
{
    let b = cbw_bytes(c);
    assert(b.subrange(0, 4) =~= le32(c.signature));
    assert(b.subrange(4, 8) =~= le32(c.tag));
    assert(b.subrange(8, 12) =~= le32(c.data_transfer_length));
    lemma_le32_at(b, 0, c.signature);
    lemma_le32_at(b, 4, c.tag);
    lemma_le32_at(b, 8, c.data_transfer_length);
    assert(b.subrange(15, 31) =~= c.cb@);
}

/// A status wrapper.
#[derive(Debug, Clone, PartialEq, Eq)]
pub struct Csw {
    pub signature: u32,
    /// The tag of the command.
    pub tag: u32,
    /// How much data was not transferred.
    pub data_residue: u32,
    pub status: CswStatus,
}

/// The bytes of a status wrapper.
pub open spec fn csw_bytes(c: Csw) -> Seq<u8> {
    le32(c.signature) + le32(c.tag) + le32(c.data_residue) + seq![status_byte(c.status)]
}

/// The status wrapper that bytes stand for.
pub open spec fn csw_of(b: Seq<u8>) -> Csw {
    Csw {
        signature: le32_at(b, 0),
        tag: le32_at(b, 4),
        data_residue: le32_at(b, 8),
        status: status_of(b[12]),
    }
}

/// The text of the error on a status wrapper of another signature.
pub open spec fn csw_signature_text(b: Seq<u8>) -> Seq<char> {
    "invalid CSW signature: 0x"@ + hex_digits_upper(le32_at(b, 0) as nat, 8)
}

impl Csw {
    /// The bytes of the wrapper.
    pub fn to_bytes(&self) -> (b: [u8; 13])
        ensures
            b@ == csw_bytes(*self),
    {
        let s: u32 = self.signature;
        let t: u32 = self.tag;
        let n: u32 = self.data_residue;
        let b: [u8; 13] = [
            (s % 256) as u8,
            ((s / 256) % 256) as u8,
            ((s / 0x10000) % 256) as u8,
            (s / 0x1000000) as u8,
            (t % 256) as u8,
            ((t / 256) % 256) as u8,
            ((t / 0x10000) % 256) as u8,
            (t / 0x1000000) as u8,
            (n % 256) as u8,
            ((n / 256) % 256) as u8,
            ((n / 0x10000) % 256) as u8,
            (n / 0x1000000) as u8,
            self.status.to_byte(),
        ];
        assert(b@ =~= csw_bytes(*self));
        b
    }

    /// The wrapper that bytes stand for. Another signature is refused.
    pub fn from_bytes(buf: &[u8; 13]) -> (r: Result<Self, ClientError>)
        ensures
            match r {
                Ok(c) => c == csw_of(buf@) && c.signature == CSW_SIGNATURE,
                Err(e) => le32_at(buf@, 0) != CSW_SIGNATURE && is_device_error(
                    e,
                    DeviceKind::MassStorage,
                    csw_signature_text(buf@),
                ),
            },
    {
        let b = buf.as_slice();
        let signature: u32 = read_le32(b, 0);
        if signature != CSW_SIGNATURE {
            return Err(
                ClientError::MassStorage(
                    "invalid CSW signature: 0x".to_owned().concat(
                        hex_string_upper(signature, 8).as_str(),
                    ),
                ),
            );
        }
        Ok(
            Csw {
                signature,
                tag: read_le32(b, 4),
                data_residue: read_le32(b, 8),
                status: CswStatus::from_byte(b[12]),
            },
        )
    }
}

/// Bytes give back the status wrapper they were made from, if its status is
/// one that a byte stands for.
pub proof fn law_csw_round_trip(c: Csw)
    requires
        c.status == status_of(status_byte(c.status)),
    ensures
        csw_bytes(c).len() == CSW_SIZE,
        csw_of(csw_bytes(c)) == c,
{
    let b = csw_bytes(c);
    assert(b.subrange(0, 4) =~= le32(c.signature));
    assert(b.subrange(4, 8) =~= le32(c.tag));
    assert(b.subrange(8, 12) =~= le32(c.data_residue));
    lemma_le32_at(b, 0, c.signature);
    lemma_le32_at(b, 4, c.tag);
    lemma_le32_at(b, 8, c.data_residue);
}

/// What the bytes of a status wrapper mean for the command of a tag: how it
/// ended, or else the text of the error.
pub open spec fn status_means(b: Seq<u8>, tag: u32) -> Result<CswStatus, Seq<char>> {
    if b.len() < 13 {
        Err("CSW too short: expected 13 bytes, got "@ + decimal(b.len()))
    } else if le32_at(b, 0) != CSW_SIGNATURE {
        Err(csw_signature_text(b))
    } else if le32_at(b, 4) != tag {
        Err(
            "CSW tag mismatch: expected 0x"@ + hex_digits_upper(tag as nat, 8) + ", got 0x"@
                + hex_digits_upper(le32_at(b, 4) as nat, 8),
        )
    } else {
        Ok(status_of(b[12]))
    }
}

/// A command passes only by a status wrapper of its own tag.
pub proof fn law_status_of_own_tag(b: Seq<u8>, tag: u32)
    ensures
        status_means(b, tag) is Ok ==> csw_of(b).tag == tag && csw_of(b).signature
            == CSW_SIGNATURE,
{
}

/// What the bytes of a status wrapper mean for the command of a tag.
pub fn receive_csw(data: &Vec<u8>, expected_tag: u32) -> (r: Result<CswStatus, ClientError>)
    ensures
        match status_means(data@, expected_tag) {
            Ok(s) => r == Ok::<CswStatus, ClientError>(s),
            Err(text) => r matches Err(e) && is_device_error(e, DeviceKind::MassStorage, text),
        },
{
    if data.len() < CSW_SIZE {
        return Err(
            ClientError::MassStorage(
                "CSW too short: expected 13 bytes, got ".to_owned().concat(
                    decimal_string(data.len() as u64).as_str(),
                ),
            ),
        );
    }
    let b: [u8; 13] = [
        data[0],
        data[1],
        data[2],
        data[3],
        data[4],
        data[5],
        data[6],
        data[7],
        data[8],
        data[9],
        data[10],
        data[11],
        data[12],
    ];
    assert(forall|i: int| 0 <= i < 13 ==> b@[i] == data@[i]);
    match Csw::from_bytes(&b) {
        Ok(csw) => {
            if csw.tag != expected_tag {
                return Err(
                    ClientError::MassStorage(
                        "CSW tag mismatch: expected 0x".to_owned().concat(
                            hex_string_upper(expected_tag, 8).as_str(),
                        ).concat(", got 0x").concat(hex_string_upper(csw.tag, 8).as_str()),
                    ),
                );
            }
            Ok(csw.status)
        },
        Err(e) => Err(e),
    }
}

/// The text of the error on a command that did not pass.
pub open spec fn failure_text(s: CswStatus) -> Seq<char> {
    match s {
        CswStatus::Passed => Seq::empty(),
        CswStatus::Failed => "SCSI command failed (CSW status=failed)"@,
        CswStatus::PhaseError => "SCSI phase error (device needs reset)"@,
        CswStatus::Unknown(b) => "unknown CSW status: 0x"@ + hex_digits_upper(b as nat, 2),
    }
}

/// The end of a command: no error where it passed.
pub fn command_end(status: CswStatus) -> (r: Result<(), ClientError>)
    ensures
        r is Ok <==> status == CswStatus::Passed,
        r matches Err(e) ==> is_device_error(e, DeviceKind::MassStorage, failure_text(status)),
{
    match status {
        CswStatus::Passed => Ok(()),
        CswStatus::Failed => Err(
            ClientError::MassStorage("SCSI command failed (CSW status=failed)".to_owned()),
        ),
        CswStatus::PhaseError => Err(
            ClientError::MassStorage("SCSI phase error (device needs reset)".to_owned()),
        ),
        CswStatus::Unknown(b) => Err(
            ClientError::MassStorage(
                "unknown CSW status: 0x".to_owned().concat(hex_string_upper(b as u32, 2).as_str()),
            ),
        ),
    }
}

/// `String::from_utf8_lossy`: the text of bytes, with a replacement for what is
/// not UTF-8. Where all of it is UTF-8, the text is that which the bytes
/// encode.
pub uninterp spec fn lossy_text(b: Seq<u8>) -> Seq<char>;

/// `String::from_utf8_lossy`: the text of bytes. What stands in the place of
/// bytes that are not UTF-8 is left unsaid.
#[verifier::external_body]
fn text_from_utf8_lossy(b: &[u8]) -> (s: String)
    ensures
        s@ == lossy_text(b@),
        valid_utf8(b@) ==> s@ == decode_utf8(b@),
{
    String::from_utf8_lossy(b).into_owned()
}

/// A text without the space at both of its ends.
pub fn trimmed_text(s: &str) -> (t: String)
    ensures
        t@ == trimmed(s@),
{
    string_of(&trim(&chars_of(s)))
}

/// Where the exchange of a command stands: which result is awaited.
#[derive(Debug)]
pub enum ScsiPhase {
    /// That of the command wrapper; the data, and how much is expected back.
    Command { data: Option<Vec<u8>>, response_len: u32 },
    /// That of the data out of the host.
    DataOut,
    /// That of the data into the host.
    DataIn,
    /// That of the status wrapper; the data that came before it.
    Status { response: Vec<u8> },
}

/// The exchange of a command.
#[derive(Debug)]
pub struct ScsiExchange {
    pub tag: u32,
    pub phase: ScsiPhase,
}

/// What comes after a result in the exchange of a command.
#[derive(Debug)]
pub enum ScsiStep {
    /// Submit this, and await its result.
    Submit(CmdSubmit, ScsiExchange),
    /// The command passed, with this data into the host.
    Done(Vec<u8>),
}

/// Where the initialisation of a device stands.
#[derive(Debug)]
pub enum StorageInit {
    Inquiry(ScsiExchange),
    Capacity(ScsiExchange),
}

/// What comes after a result in the initialisation.
#[derive(Debug)]
pub enum StorageInitStep {
    /// Submit this, and await its result.
    Submit(CmdSubmit, StorageInit),
    /// The device is initialised.
    Done,
}

/// An imported mass storage device.
#[derive(Debug)]
pub struct MassStorageDevice {
    pub link: Link,
    pub ep_out: u8,
    pub ep_in: u8,
    /// The tag of the command that comes next.
    pub next_tag: u32,
    /// Bytes in a block.
    pub block_size: u32,
    pub total_blocks: u64,
    pub vendor: String,
    pub product: String,
}

/// The way the data of a command goes, and how much of it there is.
pub open spec fn data_phase(data: Option<Seq<u8>>, response_len: u32) -> (Direction, u32) {
    match data {
        Some(d) => (Direction::Out, d.len() as u32),
        None => if response_len > 0 {
            (Direction::In, response_len)
        } else {
            (Direction::Out, 0)
        },
    }
}

/// What an optional vector holds.
pub open spec fn optional_bytes(data: Option<Vec<u8>>) -> Option<Seq<u8>> {
    match data {
        Some(v) => Some(v@),
        None => None,
    }
}

/// The exchange of a command goes on after a result: the wrapper is followed by
/// the data, and the data by the status wrapper. An error ends the exchange.
pub open spec fn command_continues(
    before: MassStorageDevice,
    after: MassStorageDevice,
    exchange: ScsiExchange,
    msg: UrbMessage,
    r: Result<ScsiStep, ClientError>,
) -> bool {
    match msg {
        UrbMessage::RetSubmit(ret) => if ret.status == 0 {
            match exchange.phase {
                ScsiPhase::Command { data: Some(d), response_len } => {
                    &&& after == before.submitted()
                    &&& r matches Ok(ScsiStep::Submit(cmd, next)) && cmd@ == before.link.out_model(
                        before.ep_out,
                        d@,
                    ) && next == (ScsiExchange { tag: exchange.tag, phase: ScsiPhase::DataOut })
                },
                ScsiPhase::Command { data: None, response_len } => if response_len > 0 {
                    &&& after == before.submitted()
                    &&& r matches Ok(ScsiStep::Submit(cmd, next)) && cmd@ == before.link.in_model(
                        before.ep_in,
                        response_len,
                    ) && next == (ScsiExchange { tag: exchange.tag, phase: ScsiPhase::DataIn })
                } else {
                    asks_status(before, after, exchange.tag, Seq::empty(), r)
                },
                ScsiPhase::DataOut => asks_status(before, after, exchange.tag, Seq::empty(), r),
                ScsiPhase::DataIn => asks_status(
                    before,
                    after,
                    exchange.tag,
                    bytes_seq(ret.transfer_buffer),
                    r,
                ),
                ScsiPhase::Status { response } => {
                    &&& after == before
                    &&& match status_means(bytes_seq(ret.transfer_buffer), exchange.tag) {
                        Ok(CswStatus::Passed) => r == Ok::<ScsiStep, ClientError>(
                            ScsiStep::Done(response),
                        ),
                        Ok(s) => r matches Err(e) && is_device_error(
                            e,
                            DeviceKind::MassStorage,
                            failure_text(s),
                        ),
                        Err(text) => r matches Err(e) && is_device_error(
                            e,
                            DeviceKind::MassStorage,
                            text,
                        ),
                    }
                },
            }
        } else {
            fails(before, after, msg, r)
        },
        _ => fails(before, after, msg, r),
    }
}

/// The status wrapper of a command is asked for, after this data.
pub open spec fn asks_status(
    before: MassStorageDevice,
    after: MassStorageDevice,
    tag: u32,
    response: Seq<u8>,
    r: Result<ScsiStep, ClientError>,
) -> bool {
    &&& after == before.submitted()
    &&& r matches Ok(ScsiStep::Submit(cmd, next)) && cmd@ == before.link.in_model(before.ep_in, 13)
        && next.tag == tag && (next.phase matches ScsiPhase::Status { response: kept } && kept@
        == response)
}

/// The result of a transfer is an error, which ends the exchange.
pub open spec fn fails(
    before: MassStorageDevice,
    after: MassStorageDevice,
    msg: UrbMessage,
    r: Result<ScsiStep, ClientError>,
) -> bool {
    &&& after == before
    &&& r matches Err(e) && result_means(
        msg,
        DeviceKind::MassStorage,
        "URB transfer"@,
        Err::<Vec<u8>, ClientError>(e),
    )
}

impl StorageInit {
    /// The exchange that is under way.
    pub open spec fn exchange(self) -> ScsiExchange {
        match self {
            StorageInit::Inquiry(x) => x,
            StorageInit::Capacity(x) => x,
        }
    }
}

/// The device as it describes itself: vendor and product. An answer that is too
/// short says nothing.
pub open spec fn inquiry_taken(
    before: MassStorageDevice,
    after: MassStorageDevice,
    answer: Seq<u8>,
) -> bool {
    if answer.len() >= 36 {
        &&& after.vendor@ == trimmed(lossy_text(answer.subrange(8, 16)))
        &&& after.product@ == trimmed(lossy_text(answer.subrange(16, 32)))
        &&& after == (MassStorageDevice { vendor: after.vendor, product: after.product, ..before })
    } else {
        after == before
    }
}

/// The device with what it says of its blocks: the number of the last one, and
/// the size. An answer that is too short says nothing.
pub open spec fn capacity_taken(before: MassStorageDevice, answer: Seq<u8>) -> MassStorageDevice {
    if answer.len() >= 8 {
        MassStorageDevice {
            block_size: be32_at(answer, 4),
            total_blocks: (be32_at(answer, 0) + 1) as u64,
            ..before
        }
    } else {
        before
    }
}

/// The initialisation goes on after a step of the exchange under way: what the
/// device is, then its blocks.
pub open spec fn initialisation_continues(
    before: MassStorageDevice,
    after: MassStorageDevice,
    at: StorageInit,
    step: Result<ScsiStep, ClientError>,
    r: Result<StorageInitStep, ClientError>,
) -> bool {
    match step {
        Err(e) => after == before && r == Err::<StorageInitStep, ClientError>(e),
        Ok(ScsiStep::Submit(cmd, next)) => {
            &&& after == before
            &&& r == Ok::<StorageInitStep, ClientError>(
                StorageInitStep::Submit(
                    cmd,
                    match at {
                        StorageInit::Inquiry(_) => StorageInit::Inquiry(next),
                        StorageInit::Capacity(_) => StorageInit::Capacity(next),
                    },
                ),
            )
        },
        Ok(ScsiStep::Done(answer)) => match at {
            StorageInit::Inquiry(_) => exists|named: MassStorageDevice| #[trigger]
                inquiry_taken(before, named, answer@) && after == named.commanded() && (
                r matches Ok(StorageInitStep::Submit(cmd, StorageInit::Capacity(next)))
                    && named.starts(ScsiCommand::ReadCapacity10, None, 8, cmd, next)),
            StorageInit::Capacity(_) => after == capacity_taken(before, answer@) && r == Ok::<
                StorageInitStep,
                ClientError,
            >(StorageInitStep::Done),
        },
    }
}

impl MassStorageDevice {
    /// What always holds of a device: the blocks are numbered by 32 bits.
    pub open spec fn wf(self) -> bool {
        self.total_blocks <= 0x1_0000_0000
    }

    /// The same device after a submission.
    pub open spec fn submitted(self) -> MassStorageDevice {
        MassStorageDevice { link: self.link.after(), ..self }
    }

    /// The same device after the wrapper of a command.
    pub open spec fn commanded(self) -> MassStorageDevice {
        MassStorageDevice {
            link: self.link.after(),
            next_tag: number_after(self.next_tag),
            ..self
        }
    }

    /// The wrapper of a command is as it should be.
    pub open spec fn wraps(
        self,
        c: Cbw,
        command: ScsiCommand,
        data: Option<Seq<u8>>,
        response_len: u32,
    ) -> bool {
        let (direction, length) = data_phase(data, response_len);
        &&& c.signature == CBW_SIGNATURE
        &&& c.tag == self.next_tag
        &&& c.data_transfer_length == length
        &&& c.flags == if direction == Direction::In {
            0x80u8
        } else {
            0u8
        }
        &&& c.lun == 0
        &&& c.cb_length == command.length()
        &&& c.cb@ == command.cdb()
    }

    /// A command has been submitted by this device: its wrapper, and the
    /// exchange that it starts.
    pub open spec fn starts(
        self,
        command: ScsiCommand,
        data: Option<Seq<u8>>,
        response_len: u32,
        cmd: CmdSubmit,
        exchange: ScsiExchange,
    ) -> bool {
        &&& exists|c: Cbw| #[trigger]
            self.wraps(c, command, data, response_len) && cmd@ == self.link.out_model(
                self.ep_out,
                cbw_bytes(c),
            )
        &&& exchange.tag == self.next_tag
        &&& exchange.phase matches ScsiPhase::Command { data: d, response_len: n }
            && optional_bytes(d) == data && n == response_len
    }

    /// The device from the server's answer to the import, with the usual
    /// endpoints. Nothing is known of its blocks yet.
    pub fn connect(busid: &str, reply: OpMessage) -> (r: Result<Self, ClientError>)
        ensures
            match reply {
                OpMessage::RepImport(rep) => if rep.status != 0 {
                    r matches Err(ClientError::ImportRejected { busid: b, status }) && b@ == busid@
                        && status == rep.status
                } else {
                    match rep.device {
                        Some(d) => {
                            &&& r matches Ok(dev) && dev.link == (Link {
                                devid: devid_of(d),
                                next_seqnum: 1,
                            }) && dev.ep_out == DEFAULT_EP_OUT && dev.ep_in == DEFAULT_EP_IN
                                && dev.next_tag == 1 && dev.block_size == 0 && dev.total_blocks == 0
                                && dev.vendor@ == Seq::<char>::empty() && dev.product@ == Seq::<
                                char,
                            >::empty() && dev.wf()
                        },
                        None => r matches Err(ClientError::ImportMissingDevice),
                    }
                },
                _ => r matches Err(
                    ClientError::Protocol(
                        crate::protocol::error::ProtocolError::InvalidOpCode(0),
                    ),
                ),
            },
    {
        match Link::connect(busid, reply) {
            Ok((link, _)) => Ok(
                MassStorageDevice {
                    link,
                    ep_out: DEFAULT_EP_OUT,
                    ep_in: DEFAULT_EP_IN,
                    next_tag: 1,
                    block_size: 0,
                    total_blocks: 0,
                    vendor: String::new(),
                    product: String::new(),
                },
            ),
            Err(e) => Err(e),
        }
    }

    /// Start the exchange of a command: submit its wrapper. The command takes
    /// data out of the host, or expects some back, or neither.
    pub fn scsi_command(
        &mut self,
        command: &ScsiCommand,
        data: Option<Vec<u8>>,
        response_len: u32,
    ) -> (r: (CmdSubmit, ScsiExchange))
        ensures
            *final(self) == old(self).commanded(),
            old(self).starts(*command, optional_bytes(data), response_len, r.0, r.1),
    {
        let (direction, length): (Direction, u32) = match &data {
            Some(d) => (Direction::Out, d.len() as u32),
            None => if response_len > 0 {
                (Direction::In, response_len)
            } else {
                (Direction::Out, 0)
            },
        };
        let tag: u32 = self.next_tag;
        self.next_tag = next_number(tag);
        let flags: u8 = if direction == Direction::In {
            0x80
        } else {
            0x00
        };
        let cbw = Cbw {
            signature: CBW_SIGNATURE,
            tag,
            data_transfer_length: length,
            flags,
            lun: 0,
            cb_length: command.cdb_length(),
            cb: command.encode_cdb(),
        };
        let bytes = cbw.to_bytes();
        let cmd = self.link.send(self.ep_out, bytes.as_slice());
        assert(old(self).wraps(cbw, *command, optional_bytes(data), response_len));
        (cmd, ScsiExchange { tag, phase: ScsiPhase::Command { data, response_len } })
    }

    /// Go on with the exchange of a command after a result: the wrapper is
    /// followed by the data, and the data by the status wrapper. An error ends
    /// the exchange.
    pub fn continue_command(&mut self, exchange: ScsiExchange, msg: &UrbMessage) -> (r: Result<
        ScsiStep,
        ClientError,
    >)
        ensures
            command_continues(*old(self), *final(self), exchange, *msg, r),
    {
        let data = match read_ret_submit(msg, DeviceKind::MassStorage, "URB transfer") {
            Ok(data) => data,
            Err(e) => return Err(e),
        };
        let tag: u32 = exchange.tag;
        match exchange.phase {
            ScsiPhase::Command { data: Some(d), response_len: _ } => {
                let cmd = self.link.send(self.ep_out, d.as_slice());
                Ok(ScsiStep::Submit(cmd, ScsiExchange { tag, phase: ScsiPhase::DataOut }))
            },
            ScsiPhase::Command { data: None, response_len } => {
                if response_len > 0 {
                    let cmd = self.link.receive(self.ep_in, response_len);
                    Ok(ScsiStep::Submit(cmd, ScsiExchange { tag, phase: ScsiPhase::DataIn }))
                } else {
                    let cmd = self.link.receive(self.ep_in, CSW_SIZE as u32);
                    let response: Vec<u8> = Vec::new();
                    Ok(
                        ScsiStep::Submit(
                            cmd,
                            ScsiExchange { tag, phase: ScsiPhase::Status { response } },
                        ),
                    )
                }
            },
            ScsiPhase::DataOut => {
                let cmd = self.link.receive(self.ep_in, CSW_SIZE as u32);
                let response: Vec<u8> = Vec::new();
                Ok(
                    ScsiStep::Submit(
                        cmd,
                        ScsiExchange { tag, phase: ScsiPhase::Status { response } },
                    ),
                )
            },
            ScsiPhase::DataIn => {
                let cmd = self.link.receive(self.ep_in, CSW_SIZE as u32);
                Ok(
                    ScsiStep::Submit(
                        cmd,
                        ScsiExchange { tag, phase: ScsiPhase::Status { response: data } },
                    ),
                )
            },
            ScsiPhase::Status { response } => match receive_csw(&data, tag) {
                Ok(status) => match command_end(status) {
                    Ok(_) => Ok(ScsiStep::Done(response)),
                    Err(e) => Err(e),
                },
                Err(e) => Err(e),
            },
        }
    }

    /// Start the initialisation: ask what the device is.
    pub fn initialize(&mut self) -> (step: StorageInitStep)
        ensures
            *final(self) == old(self).commanded(),
            step matches StorageInitStep::Submit(cmd, StorageInit::Inquiry(exchange)) && old(
                self,
            ).starts(ScsiCommand::Inquiry, None, 36, cmd, exchange),
    {
        let (cmd, exchange) = self.scsi_command(&ScsiCommand::Inquiry, None, 36);
        StorageInitStep::Submit(cmd, StorageInit::Inquiry(exchange))
    }

    /// Take what the device says it is: vendor and product. An answer that is
    /// too short says nothing.
    pub fn take_inquiry(&mut self, answer: &Vec<u8>)
        ensures
            inquiry_taken(*old(self), *final(self), answer@),
    {
        if answer.len() >= 36 {
            let b = answer.as_slice();
            let vendor = text_from_utf8_lossy(slice_subrange(b, 8, 16));
            let product = text_from_utf8_lossy(slice_subrange(b, 16, 32));
            self.vendor = trimmed_text(vendor.as_str());
            self.product = trimmed_text(product.as_str());
        }
    }

    /// Take what the device says of its blocks: the number of the last one, and
    /// the size. An answer that is too short says nothing.
    pub fn take_capacity(&mut self, answer: &Vec<u8>)
        ensures
            *final(self) == capacity_taken(*old(self), answer@),
            old(self).wf() ==> final(self).wf(),
    {
        if answer.len() >= 8 {
            let b = answer.as_slice();
            self.block_size = read_be32(b, 4);
            self.total_blocks = read_be32(b, 0) as u64 + 1;
        }
    }

    /// Go on with the initialisation after a result: what the device is, then
    /// its blocks. An error ends it.
    pub fn continue_initialize(&mut self, at: StorageInit, msg: &UrbMessage) -> (r: Result<
        StorageInitStep,
        ClientError,
    >)
        ensures
            old(self).wf() ==> final(self).wf(),
            exists|between: MassStorageDevice, step: Result<ScsiStep, ClientError>|
                #![trigger command_continues(*old(self), between, at.exchange(), *msg, step)]
                command_continues(*old(self), between, at.exchange(), *msg, step)
                    && initialisation_continues(between, *final(self), at, step, r),
    {
        match at {
            StorageInit::Inquiry(exchange) => match self.continue_command(exchange, msg) {
                Ok(ScsiStep::Submit(cmd, next)) => Ok(
                    StorageInitStep::Submit(cmd, StorageInit::Inquiry(next)),
                ),
                Ok(ScsiStep::Done(answer)) => {
                    self.take_inquiry(&answer);
                    let (cmd, next) = self.scsi_command(&ScsiCommand::ReadCapacity10, None, 8);
                    Ok(StorageInitStep::Submit(cmd, StorageInit::Capacity(next)))
                },
                Err(e) => Err(e),
            },
            StorageInit::Capacity(exchange) => match self.continue_command(exchange, msg) {
                Ok(ScsiStep::Submit(cmd, next)) => Ok(
                    StorageInitStep::Submit(cmd, StorageInit::Capacity(next)),
                ),
                Ok(ScsiStep::Done(answer)) => {
                    self.take_capacity(&answer);
                    Ok(StorageInitStep::Done)
                },
                Err(e) => Err(e),
            },
        }
    }

    /// Start to read blocks into a buffer of a length, which must be large
    /// enough. The number of the block is taken by its low 32 bits, the count by
    /// its low 16. When the exchange is done, its data is copied to the buffer.
    pub fn read_blocks(&mut self, lba: u64, count: u32, buf_len: usize) -> (r: Result<
        (CmdSubmit, ScsiExchange),
        ClientError,
    >)
        requires
            count * old(self).block_size <= usize::MAX,
        ensures
            ({
                let need = (count * old(self).block_size) as nat;
                if buf_len < need {
                    &&& *final(self) == *old(self)
                    &&& r matches Err(e) && is_device_error(
                        e,
                        DeviceKind::MassStorage,
                        "buffer too small: need "@ + decimal(need) + " bytes, got "@ + decimal(
                            buf_len as nat,
                        ),
                    )
                } else {
                    &&& *final(self) == old(self).commanded()
                    &&& r matches Ok((cmd, exchange)) && old(self).starts(
                        ScsiCommand::Read10 { lba: lba as u32, blocks: count as u16 },
                        None,
                        need as u32,
                        cmd,
                        exchange,
                    )
                }
            }),
    {
        proof {
            lemma_product(count, self.block_size);
        }
        let need: usize = count as usize * self.block_size as usize;
        if buf_len < need {
            return Err(
                ClientError::MassStorage(
                    "buffer too small: need ".to_owned().concat(
                        decimal_string(need as u64).as_str(),
                    ).concat(" bytes, got ").concat(decimal_string(buf_len as u64).as_str()),
                ),
            );
        }
        let command = ScsiCommand::Read10 { lba: lba as u32, blocks: count as u16 };
        Ok(self.scsi_command(&command, None, need as u32))
    }

    /// Start to write blocks from data, of which there must be enough; what is
    /// too much is left out. The third part of the result is how many bytes are
    /// written when the exchange is done.
    pub fn write_blocks(&mut self, lba: u64, count: u32, data: &[u8]) -> (r: Result<
        (CmdSubmit, ScsiExchange, usize),
        ClientError,
    >)
        requires
            count * old(self).block_size <= usize::MAX,
        ensures
            ({
                let need = (count * old(self).block_size) as nat;
                if data@.len() < need {
                    &&& *final(self) == *old(self)
                    &&& r matches Err(e) && is_device_error(
                        e,
                        DeviceKind::MassStorage,
                        "data too small: need "@ + decimal(need) + " bytes, got "@ + decimal(
                            data@.len(),
                        ),
                    )
                } else {
                    &&& *final(self) == old(self).commanded()
                    &&& r matches Ok((cmd, exchange, n)) && n == need && old(self).starts(
                        ScsiCommand::Write10 { lba: lba as u32, blocks: count as u16 },
                        Some(data@.take(need as int)),
                        0,
                        cmd,
                        exchange,
                    )
                }
            }),
    {
        proof {
            lemma_product(count, self.block_size);
        }
        let need: usize = count as usize * self.block_size as usize;
        if data.len() < need {
            return Err(
                ClientError::MassStorage(
                    "data too small: need ".to_owned().concat(
                        decimal_string(need as u64).as_str(),
                    ).concat(" bytes, got ").concat(decimal_string(data.len() as u64).as_str()),
                ),
            );
        }
        let command = ScsiCommand::Write10 { lba: lba as u32, blocks: count as u16 };
        let payload: Vec<u8> = slice_to_vec(slice_subrange(data, 0, need));
        assert(payload@ =~= data@.take(need as int));
        let (cmd, exchange) = self.scsi_command(&command, Some(payload), 0);
        Ok((cmd, exchange, need))
    }

    /// Bytes in the device.
    pub fn disk_size(&self) -> (n: u64)
        requires
            self.wf(),
        ensures
            n == self.total_blocks * self.block_size,
    {
        assert(self.total_blocks * self.block_size <= 0x1_0000_0000 * 0xffff_ffff)
            by (nonlinear_arith)
            requires
                self.total_blocks <= 0x1_0000_0000,
                self.block_size <= 0xffff_ffff,
        ;
        self.total_blocks * self.block_size as u64
    }

    /// Bytes in a block.
    pub fn block_size(&self) -> (n: u32)
        ensures
            n == self.block_size,
    {
        self.block_size
    }

    /// The vendor.
    pub fn vendor(&self) -> (s: &str)
        ensures
            s@ == self.vendor@,
    {
        self.vendor.as_str()
    }

    /// The product.
    pub fn product(&self) -> (s: &str)
        ensures
            s@ == self.product@,
    {
        self.product.as_str()
    }

    /// Blocks in the device.
    pub fn total_blocks(&self) -> (n: u64)
        ensures
            n == self.total_blocks,
    {
        self.total_blocks
    }
}

proof fn lemma_product(a: u32, b: u32)
    ensures
        0 <= a * b <= 0xffff_ffff * 0xffff_ffff,
{
    assert(0 <= a * b <= 0xffff_ffff * 0xffff_ffff) by (nonlinear_arith)
        requires
            0 <= a <= 0xffff_ffff,
            0 <= b <= 0xffff_ffff,
    ;
}

/// The bytes of a command block stand in its wrapper from a place on: the code
/// of the command first, then what it takes; the rest is zero.
pub open spec fn block_stands(b: Seq<u8>, command: ScsiCommand) -> bool {
    match command {
        ScsiCommand::TestUnitReady => forall|i: int| 15 <= i < 31 ==> #[trigger] b[i] == 0,
        ScsiCommand::Inquiry => {
            &&& b[15] == 0x12
            &&& b[19] == 36
            &&& forall|i: int| 15 < i < 31 && i != 19 ==> #[trigger] b[i] == 0
        },
        ScsiCommand::ReadCapacity10 => {
            &&& b[15] == 0x25
            &&& forall|i: int| 15 < i < 31 ==> #[trigger] b[i] == 0
        },
        ScsiCommand::Read10 { lba, blocks } => {
            &&& b[15] == 0x28
            &&& b[16] == 0
            &&& be32_at(b, 17) == lba
            &&& b[21] == 0
            &&& b[22] * 256 + b[23] == blocks
            &&& forall|i: int| 24 <= i < 31 ==> #[trigger] b[i] == 0
        },
        ScsiCommand::Write10 { lba, blocks } => {
            &&& b[15] == 0x2A
            &&& b[16] == 0
            &&& be32_at(b, 17) == lba
            &&& b[21] == 0
            &&& b[22] * 256 + b[23] == blocks
            &&& forall|i: int| 24 <= i < 31 ==> #[trigger] b[i] == 0
        },
        ScsiCommand::RequestSense => {
            &&& b[15] == 0x03
            &&& b[19] == 18
            &&& forall|i: int| 15 < i < 31 && i != 19 ==> #[trigger] b[i] == 0
        },
        ScsiCommand::ModeSense6 => {
            &&& b[15] == 0x1A
            &&& b[17] == 0x3F
            &&& b[19] == 192
            &&& forall|i: int| 15 < i < 31 && i != 17 && i != 19 ==> #[trigger] b[i] == 0
        },
    }
}

proof fn lemma_transfer_stands(b: Seq<u8>, s: Seq<u8>, code: u8, lba: u32, blocks: u16)
    requires
        b.len() == 31,
        s == block(seq![code, 0u8] + be32(lba) + seq![0u8] + be16(blocks)),
        b.subrange(15, 31) == s,
    ensures
        b[15] == code,
        b[16] == 0,
        be32_at(b, 17) == lba,
        b[21] == 0,
        b[22] * 256 + b[23] == blocks,
        forall|i: int| 24 <= i < 31 ==> #[trigger] b[i] == 0,
{
    assert forall|i: int| 15 <= i < 31 implies #[trigger] b[i] == s[i - 15] by {
        assert(b.subrange(15, 31)[i - 15] == b[i]);
    }
    assert(b.subrange(17, 21) =~= be32(lba));
    lemma_be32_at(b, 17, lba);
    assert(b[22] == be16(blocks)[0] && b[23] == be16(blocks)[1]);
}

#[verifier::spinoff_prover]
#[verifier::rlimit(40)]
proof fn lemma_block_stands(c: Cbw, command: ScsiCommand)
    requires
        c.cb@ == command.cdb(),
    ensures
        block_stands(cbw_bytes(c), command),
        c.cb@.len() == 16,
{
    let b = cbw_bytes(c);
    let s = c.cb@;
    assert(b.subrange(15, 31) =~= s);
    match command {
        ScsiCommand::Read10 { lba, blocks } => {
            lemma_transfer_stands(b, s, 0x28, lba, blocks);
        },
        ScsiCommand::Write10 { lba, blocks } => {
            lemma_transfer_stands(b, s, 0x2A, lba, blocks);
        },
        _ => {
            assert forall|i: int| 15 <= i < 31 implies #[trigger] b[i] == s[i - 15] by {
                assert(b.subrange(15, 31)[i - 15] == b[i]);
            }
        },
    }
}

/// A command is sent as a wrapper of 31 bytes out of the host: its signature,
/// the tag of the exchange, the length of the data, the way it goes, the unit
/// and the length of the command block, and the block. The top bit of the
/// thirteenth byte is set exactly where data is expected into the host.
pub proof fn law_command_sent(
    dev: &mut MassStorageDevice,
    command: ScsiCommand,
    data: Option<Vec<u8>>,
    response_len: u32,
    cmd: CmdSubmit,
    exchange: ScsiExchange,
)
    requires
        call_ensures(
            MassStorageDevice::scsi_command,
            (dev, &command, data, response_len),
            (cmd, exchange),
        ),
        data matches Some(d) ==> d@.len() <= u32::MAX,
    ensures
        ({
            let b = bytes_seq(cmd.transfer_buffer);
            &&& b.len() == 31
            &&& cmd.transfer_buffer_length == 31
            &&& cmd.header.direction == 0
            &&& cmd.header.ep == old(dev).ep_out % 16
            &&& cmd.header.seqnum == old(dev).link.next_seqnum
            &&& cmd.header.devid == old(dev).link.devid
            &&& b[0] == 0x55 && b[1] == 0x53 && b[2] == 0x42 && b[3] == 0x43
            &&& le32_at(b, 4) == old(dev).next_tag
            &&& exchange.tag == old(dev).next_tag
            &&& data matches Some(d) ==> le32_at(b, 8) == d@.len() && b[12] == 0x00
            &&& data is None ==> le32_at(b, 8) == response_len
            &&& data is None && response_len > 0 ==> b[12] == 0x80
            &&& data is None && response_len == 0 ==> b[12] == 0x00
            &&& b[13] == 0
            &&& b[14] == match command {
                ScsiCommand::Read10 { .. } => 10u8,
                ScsiCommand::Write10 { .. } => 10u8,
                ScsiCommand::ReadCapacity10 => 10u8,
                _ => 6u8,
            }
            &&& block_stands(b, command)
        }),
        old(dev).next_tag < u32::MAX ==> final(dev).next_tag == old(dev).next_tag + 1,
        old(dev).next_tag == u32::MAX ==> final(dev).next_tag == 1,
        final(dev).ep_out == old(dev).ep_out,
        final(dev).ep_in == old(dev).ep_in,
        final(dev).block_size == old(dev).block_size,
        final(dev).total_blocks == old(dev).total_blocks,
{
    let sent = optional_bytes(data);
    let c = choose|c: Cbw| #[trigger]
        old(dev).wraps(c, command, sent, response_len) && cmd@ == old(dev).link.out_model(
            old(dev).ep_out,
            cbw_bytes(c),
        );
    let b = cbw_bytes(c);
    assert(bytes_seq(cmd.transfer_buffer) == b);
    law_cbw_round_trip(c);
    lemma_block_stands(c, command);
    crate::client::transfer::lemma_endpoint_number(old(dev).ep_out);
    assert(b.subrange(0, 4) =~= le32(0x4342_5355u32));
    assert(b[0] == b.subrange(0, 4)[0] && b[1] == b.subrange(0, 4)[1]);
    assert(b[2] == b.subrange(0, 4)[2] && b[3] == b.subrange(0, 4)[3]);
}

/// The data of a command goes the way that its wrapper tells: after a wrapper
/// with the top bit set, as much comes into the host as it announces; after
/// another that announces data, the data goes out. Then, or at once where there
/// is none, the 13 bytes of the status wrapper are asked for.
pub proof fn law_data_goes_as_told(
    dev: &mut MassStorageDevice,
    command: ScsiCommand,
    data: Option<Vec<u8>>,
    response_len: u32,
    cmd: CmdSubmit,
    exchange: ScsiExchange,
    after: &mut MassStorageDevice,
    msg: UrbMessage,
    r: Result<ScsiStep, ClientError>,
)
    requires
        call_ensures(
            MassStorageDevice::scsi_command,
            (dev, &command, data, response_len),
            (cmd, exchange),
        ),
        data matches Some(d) ==> d@.len() <= u32::MAX,
        *old(after) == *final(dev),
        msg matches UrbMessage::RetSubmit(ret) && ret.status == 0,
        call_ensures(MassStorageDevice::continue_command, (after, exchange, &msg), r),
    ensures
        r matches Ok(ScsiStep::Submit(next, _)) && ({
            let b = bytes_seq(cmd.transfer_buffer);
            &&& b[12] == 0x80 ==> {
                &&& next.header.direction == 1
                &&& next.header.ep == old(dev).ep_in % 16
                &&& next.transfer_buffer_length == le32_at(b, 8)
                &&& bytes_seq(next.transfer_buffer).len() == 0
            }
            &&& b[12] != 0x80 && data is Some ==> {
                &&& next.header.direction == 0
                &&& next.header.ep == old(dev).ep_out % 16
                &&& next.transfer_buffer_length == le32_at(b, 8)
                &&& bytes_seq(next.transfer_buffer) == data->Some_0@
            }
            &&& data is None && response_len == 0 ==> {
                &&& next.header.direction == 1
                &&& next.header.ep == old(dev).ep_in % 16
                &&& next.transfer_buffer_length == 13
            }
            &&& next.header.seqnum == final(dev).link.next_seqnum
        }),
{
    law_command_sent(dev, command, data, response_len, cmd, exchange);
    crate::client::transfer::lemma_endpoint_number(old(dev).ep_out);
    crate::client::transfer::lemma_endpoint_number(old(dev).ep_in);
}

/// After the data of a command the 13 bytes of its status wrapper are asked for,
/// and the data that came in is kept.
pub proof fn law_status_after_data(
    dev: &mut MassStorageDevice,
    exchange: ScsiExchange,
    msg: UrbMessage,
    r: Result<ScsiStep, ClientError>,
)
    requires
        exchange.phase is DataIn || exchange.phase is DataOut,
        msg matches UrbMessage::RetSubmit(ret) && ret.status == 0,
        call_ensures(MassStorageDevice::continue_command, (dev, exchange, &msg), r),
    ensures
        r matches Ok(ScsiStep::Submit(next, then)) && ({
            &&& next.header.direction == 1
            &&& next.header.ep == old(dev).ep_in % 16
            &&& next.transfer_buffer_length == 13
            &&& then.tag == exchange.tag
            &&& then.phase matches ScsiPhase::Status { response } && response@ == if exchange.phase
                is DataIn {
                bytes_seq(msg->RetSubmit_0.transfer_buffer)
            } else {
                Seq::empty()
            }
        }),
{
    crate::client::transfer::lemma_endpoint_number(old(dev).ep_in);
}

/// A command is done exactly by a status wrapper with the signature, the tag of
/// the exchange and the status zero, and gives the data that came before.
pub proof fn law_done_by_status(
    dev: &mut MassStorageDevice,
    exchange: ScsiExchange,
    msg: UrbMessage,
    r: Result<ScsiStep, ClientError>,
)
    requires
        exchange.phase is Status,
        msg matches UrbMessage::RetSubmit(ret) && ret.status == 0,
        call_ensures(MassStorageDevice::continue_command, (dev, exchange, &msg), r),
    ensures
        ({
            let b = bytes_seq(msg->RetSubmit_0.transfer_buffer);
            &&& r is Ok <==> b.len() >= 13 && b[0] == 0x55 && b[1] == 0x53 && b[2] == 0x42
                && b[3] == 0x53 && le32_at(b, 4) == exchange.tag && b[12] == 0
            &&& r matches Ok(step) ==> step == ScsiStep::Done(
                exchange.phase->Status_response,
            )
        }),
{
}

/// A wrapper of a command has its fields at their places, written and read; the
/// signature is that of command wrappers where it is read.
pub proof fn law_cbw_layout(c: Cbw, b: [u8; 31], d: [u8; 31], e: Cbw)
    requires
        call_ensures(Cbw::to_bytes, (&c,), b),
        call_ensures(Cbw::from_bytes, (&d,), Ok(e)),
    ensures
        le32_at(b@, 0) == c.signature,
        le32_at(b@, 4) == c.tag,
        le32_at(b@, 8) == c.data_transfer_length,
        b@[12] == c.flags,
        b@[13] == c.lun,
        b@[14] == c.cb_length,
        b@.subrange(15, 31) == c.cb@,
        le32_at(d@, 0) == 0x4342_5355,
        le32_at(d@, 0) == e.signature,
        le32_at(d@, 4) == e.tag,
        le32_at(d@, 8) == e.data_transfer_length,
        d@[12] == e.flags,
        d@[13] == e.lun,
        d@[14] == e.cb_length,
        d@.subrange(15, 31) == e.cb@,
{
    law_cbw_round_trip(c);
}

/// A status wrapper has its fields at their places, written and read; the
/// signature is that of status wrappers where it is read.
pub proof fn law_csw_layout(c: Csw, b: [u8; 13], d: [u8; 13], e: Csw)
    requires
        call_ensures(Csw::to_bytes, (&c,), b),
        call_ensures(Csw::from_bytes, (&d,), Ok(e)),
    ensures
        le32_at(b@, 0) == c.signature,
        le32_at(b@, 4) == c.tag,
        le32_at(b@, 8) == c.data_residue,
        c.status == CswStatus::Passed ==> b@[12] == 0,
        c.status == CswStatus::Failed ==> b@[12] == 1,
        c.status == CswStatus::PhaseError ==> b@[12] == 2,
        le32_at(d@, 0) == 0x5342_5355,
        le32_at(d@, 0) == e.signature,
        le32_at(d@, 4) == e.tag,
        le32_at(d@, 8) == e.data_residue,
        d@[12] == 0 <==> e.status == CswStatus::Passed,
        d@[12] == 1 <==> e.status == CswStatus::Failed,
        d@[12] == 2 <==> e.status == CswStatus::PhaseError,
{
    let w = b@;
    assert(w.subrange(0, 4) =~= le32(c.signature));
    assert(w.subrange(4, 8) =~= le32(c.tag));
    assert(w.subrange(8, 12) =~= le32(c.data_residue));
    lemma_le32_at(w, 0, c.signature);
    lemma_le32_at(w, 4, c.tag);
    lemma_le32_at(w, 8, c.data_residue);
}

/// Blocks are read by a command for their first number and their count, and as
/// many bytes are expected as they have, but only where the buffer holds them.
pub proof fn law_read_blocks(
    dev: &mut MassStorageDevice,
    lba: u64,
    count: u32,
    buf_len: usize,
    r: Result<(CmdSubmit, ScsiExchange), ClientError>,
)
    requires
        call_ensures(MassStorageDevice::read_blocks, (dev, lba, count, buf_len), r),
        lba <= u32::MAX,
        count <= u16::MAX,
        count * old(dev).block_size <= u32::MAX,
    ensures
        r is Ok <==> count * old(dev).block_size <= buf_len,
        r matches Ok((cmd, exchange)) ==> {
            let b = bytes_seq(cmd.transfer_buffer);
            &&& b.len() == 31
            &&& cmd.header.direction == 0
            &&& le32_at(b, 8) == count * old(dev).block_size
            &&& (count * old(dev).block_size > 0 ==> b[12] == 0x80)
            &&& b[15] == 0x28
            &&& be32_at(b, 17) == lba
            &&& b[22] * 256 + b[23] == count
            &&& exchange.tag == le32_at(b, 4)
        },
{
    if let Ok((cmd, exchange)) = r {
        lemma_product(count, old(dev).block_size);
        let need = (count * old(dev).block_size) as u32;
        let command = ScsiCommand::Read10 { lba: lba as u32, blocks: count as u16 };
        lemma_started(*old(dev), command, None, need, cmd, exchange);
    }
}

/// Blocks are written by a command for their first number and their count, with
/// as many bytes of the data as they have, but only where there are as many.
pub proof fn law_write_blocks(
    dev: &mut MassStorageDevice,
    lba: u64,
    count: u32,
    data: &[u8],
    r: Result<(CmdSubmit, ScsiExchange, usize), ClientError>,
)
    requires
        call_ensures(MassStorageDevice::write_blocks, (dev, lba, count, data), r),
        lba <= u32::MAX,
        count <= u16::MAX,
        count * old(dev).block_size <= u32::MAX,
    ensures
        r is Ok <==> count * old(dev).block_size <= data@.len(),
        r matches Ok((cmd, exchange, n)) ==> {
            let b = bytes_seq(cmd.transfer_buffer);
            &&& b.len() == 31
            &&& cmd.header.direction == 0
            &&& le32_at(b, 8) == count * old(dev).block_size
            &&& b[12] == 0x00
            &&& b[15] == 0x2A
            &&& be32_at(b, 17) == lba
            &&& b[22] * 256 + b[23] == count
            &&& exchange.tag == le32_at(b, 4)
            &&& n == count * old(dev).block_size
            &&& exchange.phase matches ScsiPhase::Command { data: Some(d), .. } && d@
                == data@.take(n as int)
        },
{
    if let Ok((cmd, exchange, n)) = r {
        lemma_product(count, old(dev).block_size);
        let need = count * old(dev).block_size;
        let command = ScsiCommand::Write10 { lba: lba as u32, blocks: count as u16 };
        lemma_started(
            *old(dev),
            command,
            Some(data@.take(need as int)),
            0,
            cmd,
            exchange,
        );
    }
}

proof fn lemma_started(
    dev: MassStorageDevice,
    command: ScsiCommand,
    data: Option<Seq<u8>>,
    response_len: u32,
    cmd: CmdSubmit,
    exchange: ScsiExchange,
)
    requires
        dev.starts(command, data, response_len, cmd, exchange),
        data matches Some(d) ==> d.len() <= u32::MAX,
    ensures
        ({
            let b = bytes_seq(cmd.transfer_buffer);
            &&& b.len() == 31
            &&& cmd.header.direction == 0
            &&& le32_at(b, 4) == exchange.tag
            &&& data matches Some(d) ==> le32_at(b, 8) == d.len() && b[12] == 0x00
            &&& data is None ==> le32_at(b, 8) == response_len
            &&& data is None && response_len > 0 ==> b[12] == 0x80
            &&& block_stands(b, command)
        }),
{
    let c = choose|c: Cbw| #[trigger]
        dev.wraps(c, command, data, response_len) && cmd@ == dev.link.out_model(
            dev.ep_out,
            cbw_bytes(c),
        );
    assert(bytes_seq(cmd.transfer_buffer) == cbw_bytes(c));
    law_cbw_round_trip(c);
    lemma_block_stands(c, command);
}

/// The answer on the blocks of a device begins with the number of the last one,
/// and then has the size of one, both most significant byte first.
pub proof fn law_capacity(dev: &mut MassStorageDevice, answer: Vec<u8>)
    requires
        call_ensures(MassStorageDevice::take_capacity, (dev, &answer), ()),
    ensures
        answer@.len() < 8 ==> *final(dev) == *old(dev),
        answer@.len() >= 8 ==> {
            &&& final(dev).total_blocks == be32_at(answer@, 0) + 1
            &&& final(dev).block_size == be32_at(answer@, 4)
        },
        final(dev).link == old(dev).link,
        final(dev).next_tag == old(dev).next_tag,
        final(dev).ep_in == old(dev).ep_in,
        final(dev).ep_out == old(dev).ep_out,
{
}

/// An imported device sends to endpoint two and receives from endpoint one.
pub proof fn law_storage_endpoints(busid: &str, reply: OpMessage, dev: MassStorageDevice)
    requires
        call_ensures(MassStorageDevice::connect, (busid, reply), Ok(dev)),
    ensures
        dev.ep_out == 0x02,
        dev.ep_in == 0x81,
        dev.next_tag == 1,
        dev.link.next_seqnum == 1,
{
}

/// The statuses are the bytes 0, 1 and 2; only the first ends a command without
/// an error, and every byte comes back from its status.
pub proof fn law_statuses(b: u8, s: CswStatus, c: u8, r: Result<(), ClientError>)
    requires
        call_ensures(CswStatus::from_byte, (b,), s),
        call_ensures(CswStatus::to_byte, (s,), c),
        call_ensures(command_end, (s,), r),
    ensures
        c == b,
        s == CswStatus::Passed <==> b == 0,
        s == CswStatus::Failed <==> b == 1,
        s == CswStatus::PhaseError <==> b == 2,
        r is Ok <==> b == 0,
        r matches Err(e) ==> e is MassStorage,
{
}

/// The vendor stands in the eight bytes from the ninth on, and the product in
/// the sixteen behind it, both without the space around them; nothing else of
/// the device changes.
pub proof fn law_inquiry(dev: &mut MassStorageDevice, answer: Vec<u8>)
    requires
        call_ensures(MassStorageDevice::take_inquiry, (dev, &answer), ()),
    ensures
        answer@.len() >= 36 ==> final(dev).vendor@ == trimmed(lossy_text(answer@.subrange(8, 16)))
            && final(dev).product@ == trimmed(lossy_text(answer@.subrange(16, 32))),
        answer@.len() < 36 ==> final(dev).vendor == old(dev).vendor && final(dev).product == old(dev).product,
        final(dev).block_size == old(dev).block_size,
        final(dev).total_blocks == old(dev).total_blocks,
        final(dev).ep_in == old(dev).ep_in,
        final(dev).ep_out == old(dev).ep_out,
        final(dev).link == old(dev).link,
        final(dev).next_tag == old(dev).next_tag,
{
}

/// The size of a disk is that of its blocks, times their number.
pub proof fn law_disk_size(dev: MassStorageDevice, n: u64, size: u32, count: u64)
    requires
        dev.wf(),
        call_ensures(MassStorageDevice::disk_size, (&dev,), n),
        call_ensures(MassStorageDevice::block_size, (&dev,), size),
        call_ensures(MassStorageDevice::total_blocks, (&dev,), count),
    ensures
        n == size * count,
        size == dev.block_size,
        count == dev.total_blocks,
{
    assert(size * count == count * size) by (nonlinear_arith);
}

} // verus!
