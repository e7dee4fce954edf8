//! The discovery messages: the device list and the import of a device.

use vstd::prelude::*;

use crate::endian::{be16, be16_at, be32, be32_at, lemma_be16_at, lemma_be32_at};
use crate::protocol::buf::{get_array, get_u16, get_u32, put_slice, put_u16, put_u32};
use crate::protocol::codes::{OpCode, USBIP_VERSION};
use crate::protocol::device::{
    decode_device_with_interfaces, device_stands, device_with_interfaces_decoding,
    device_with_interfaces_encoding, encode_device_with_interfaces, law_device_layout,
    law_device_read, law_device_round_trip, law_device_with_interfaces_read,
    law_device_with_interfaces_round_trip, BusId, UsbDevice, UsbDeviceModel, USB_DEVICE_WIRE_SIZE,
    USB_INTERFACE_WIRE_SIZE,
};
use crate::protocol::error::ProtocolError;
use crate::protocol::urb::MAX_DEVICES_IN_DEVLIST;
use crate::protocol::wire::{lemma_skip_skip, too_short, WireFormat};

verus! {

/// Size of the header of every discovery message: version, code and status.
pub const OP_HEADER_SIZE: usize = 8;

/// Size of a request to import a device.
pub const OP_REQ_IMPORT_SIZE: usize = 40;

/// The header of a discovery message.
pub open spec fn op_header(code: OpCode, status: u32) -> Seq<u8> {
    be16(USBIP_VERSION) + be16(code.spec_code()) + be32(status)
}

/// What is read as the header of a message of a given kind: its status; and
/// how many bytes are read.
pub open spec fn op_header_decoding(b: Seq<u8>, code: OpCode) -> (Result<u32, ProtocolError>, int) {
    if be16_at(b, 0) != USBIP_VERSION {
        (Err(ProtocolError::UnsupportedVersion(be16_at(b, 0))), 2)
    } else if be16_at(b, 2) != code.spec_code() {
        (Err(ProtocolError::InvalidOpCode(be16_at(b, 2))), 4)
    } else {
        (Ok(be32_at(b, 4)), 8)
    }
}

fn put_op_header(buf: &mut Vec<u8>, code: OpCode, status: u32)
    ensures
        final(buf)@ == old(buf)@ + op_header(code, status),
{
    put_u16(buf, USBIP_VERSION);
    put_u16(buf, code.code());
    put_u32(buf, status);
    assert(buf@ =~= old(buf)@ + op_header(code, status));
}

fn get_op_header(buf: &mut &[u8], code: OpCode) -> (r: Result<u32, ProtocolError>)
    requires
        old(buf)@.len() >= 8,
    ensures
        r == op_header_decoding(old(buf)@, code).0,
        final(buf)@ == old(buf)@.skip(op_header_decoding(old(buf)@, code).1),
{
    broadcast use lemma_skip_skip;

    let version = get_u16(buf);
    if version != USBIP_VERSION {
        return Err(ProtocolError::UnsupportedVersion(version));
    }
    let raw = get_u16(buf);
    if raw != code.code() {
        return Err(ProtocolError::InvalidOpCode(raw));
    }
    let status = get_u32(buf);
    Ok(status)
}

/// A header is read back as it was written, whatever follows.
pub proof fn lemma_op_header(code: OpCode, status: u32, rest: Seq<u8>)
    ensures
        op_header(code, status).len() == 8,
        op_header_decoding(op_header(code, status) + rest, code) == (
            Ok::<u32, ProtocolError>(status),
            8int,
        ),
{
    let b = op_header(code, status) + rest;
    assert(b.subrange(0, 2) =~= be16(USBIP_VERSION));
    assert(b.subrange(2, 4) =~= be16(code.spec_code()));
    assert(b.subrange(4, 8) =~= be32(status));
    lemma_be16_at(b, 0, USBIP_VERSION);
    lemma_be16_at(b, 2, code.spec_code());
    lemma_be32_at(b, 4, status);
}

/// Ask for the list of exported devices.
#[derive(Debug, Clone, Copy, PartialEq, Eq, Structural)]
pub struct OpReqDevlist;

impl WireFormat for OpReqDevlist {
    type Model = OpReqDevlist;

    open spec fn model(&self) -> OpReqDevlist {
        *self
    }

    open spec fn encoding(m: OpReqDevlist) -> Seq<u8> {
        op_header(OpCode::OpReqDevlist, 0)
    }

    open spec fn decoding(b: Seq<u8>) -> (Result<OpReqDevlist, ProtocolError>, int) {
        if b.len() < 8 {
            (Err(too_short(8, b.len() as int)), 0)
        } else {
            match op_header_decoding(b, OpCode::OpReqDevlist) {
                (Err(e), n) => (Err(e), n),
                (Ok(_), n) => (Ok(OpReqDevlist), n),
            }
        }
    }

    open spec fn size(m: OpReqDevlist) -> nat {
        8
    }

    fn encode(&self, buf: &mut Vec<u8>) {
        put_op_header(buf, OpCode::OpReqDevlist, 0);
    }

    fn decode(buf: &mut &[u8]) -> (r: Result<Self, ProtocolError>) {
        if buf.len() < OP_HEADER_SIZE {
            assert(buf@.skip(0) =~= buf@);
            return Err(
                ProtocolError::BufferTooShort { needed: OP_HEADER_SIZE, available: buf.len() },
            );
        }
        match get_op_header(buf, OpCode::OpReqDevlist) {
            Ok(_) => Ok(OpReqDevlist),
            Err(e) => Err(e),
        }
    }

    fn wire_size(&self) -> usize {
        OP_HEADER_SIZE
    }
}

/// The list of exported devices.
#[derive(Debug, Clone, PartialEq, Eq)]
pub struct OpRepDevlist {
    /// Zero for success.
    pub status: u32,
    /// The devices, with their interfaces.
    pub devices: Vec<UsbDevice>,
}

/// What a device list says.
pub struct OpRepDevlistModel {
    pub status: u32,
    pub devices: Seq<UsbDeviceModel>,
}

/// What the devices of a list say.
pub open spec fn device_models(ds: Seq<UsbDevice>) -> Seq<UsbDeviceModel> {
    Seq::new(ds.len(), |i: int| ds[i]@)
}

/// The bytes of devices with their interfaces, one after the other.
pub open spec fn devices_encoding(ds: Seq<UsbDeviceModel>) -> Seq<u8>
    decreases ds.len(),
{
    if ds.len() == 0 {
        Seq::empty()
    } else {
        devices_encoding(ds.drop_last()) + device_with_interfaces_encoding(ds.last())
    }
}

/// The size of devices with their interfaces.
pub open spec fn devices_size(ds: Seq<UsbDeviceModel>) -> nat
    decreases ds.len(),
{
    if ds.len() == 0 {
        0
    } else {
        devices_size(ds.drop_last()) + 312 + 4 * ds.last().interfaces.len()
    }
}

/// What is read as `n` devices with their interfaces, from `pos` on, and where
/// reading ends.
pub open spec fn devices_decoding(b: Seq<u8>, pos: int, n: nat) -> (
    Result<Seq<UsbDeviceModel>, ProtocolError>,
    int,
)
    decreases n,
{
    if n == 0 {
        (Ok(Seq::empty()), pos)
    } else {
        match device_with_interfaces_decoding(b.skip(pos)) {
            (Err(e), k) => (Err(e), pos + k),
            (Ok(d), k) => match devices_decoding(b, pos + k, (n - 1) as nat) {
                (Err(e), end) => (Err(e), end),
                (Ok(ds), end) => (Ok(seq![d] + ds), end),
            },
        }
    }
}

impl WireFormat for OpRepDevlist {
    type Model = OpRepDevlistModel;

    open spec fn model(&self) -> OpRepDevlistModel {
        OpRepDevlistModel { status: self.status, devices: device_models(self.devices@) }
    }

    open spec fn encoding(m: OpRepDevlistModel) -> Seq<u8> {
        op_header(OpCode::OpRepDevlist, m.status) + be32(m.devices.len() as u32)
            + devices_encoding(m.devices)
    }

    open spec fn decoding(b: Seq<u8>) -> (Result<OpRepDevlistModel, ProtocolError>, int) {
        if b.len() < 12 {
            (Err(too_short(12, b.len() as int)), 0)
        } else {
            match op_header_decoding(b, OpCode::OpRepDevlist) {
                (Err(e), n) => (Err(e), n),
                (Ok(status), _) => {
                    let count = be32_at(b, 8);
                    if count > MAX_DEVICES_IN_DEVLIST {
                        (
                            Err(
                                ProtocolError::TooManyDevices {
                                    count,
                                    max: MAX_DEVICES_IN_DEVLIST,
                                },
                            ),
                            12,
                        )
                    } else {
                        match devices_decoding(b, 12, count as nat) {
                            (Err(e), end) => (Err(e), end),
                            (Ok(devices), end) => (Ok(OpRepDevlistModel { status, devices }), end),
                        }
                    }
                },
            }
        }
    }

    open spec fn size(m: OpRepDevlistModel) -> nat {
        12 + devices_size(m.devices)
    }

    fn encode(&self, buf: &mut Vec<u8>) {
        put_op_header(buf, OpCode::OpRepDevlist, self.status);
        put_u32(buf, self.devices.len() as u32);
        let ghost start = buf@;
        let ghost models = device_models(self.devices@);
        let mut i: usize = 0;
        while i < self.devices.len()
            invariant
                i <= self.devices@.len(),
                models == device_models(self.devices@),
                buf@ == start + devices_encoding(models.take(i as int)),
            decreases self.devices.len() - i,
        {
            encode_device_with_interfaces(&self.devices[i], buf);
            proof {
                let next = models.take(i + 1);
                assert(next.drop_last() =~= models.take(i as int));
                assert(buf@ =~= start + devices_encoding(next));
            }
            i = i + 1;
        }
        assert(models.take(i as int) =~= models);
        assert(buf@ =~= old(buf)@ + Self::encoding(self.model()));
    }

    fn decode(buf: &mut &[u8]) -> (r: Result<Self, ProtocolError>) {
        broadcast use lemma_skip_skip;

        let ghost b = buf@;
        if buf.len() < OP_HEADER_SIZE + 4 {
            assert(buf@.skip(0) =~= buf@);
            return Err(
                ProtocolError::BufferTooShort { needed: OP_HEADER_SIZE + 4, available: buf.len() },
            );
        }
        let status = match get_op_header(buf, OpCode::OpRepDevlist) {
            Ok(s) => s,
            Err(e) => {
                return Err(e);
            },
        };
        let count = get_u32(buf);
        if count > MAX_DEVICES_IN_DEVLIST {
            return Err(ProtocolError::TooManyDevices { count, max: MAX_DEVICES_IN_DEVLIST });
        }
        let mut devices: Vec<UsbDevice> = Vec::new();
        let mut i: u32 = 0;
        let ghost mut pos: int = 12;
        let ghost whole = devices_decoding(b, 12, count as nat);
        assert(device_models(devices@) =~= Seq::empty());
        while i < count
            invariant
                i <= count,
                devices@.len() == i,
                12 <= pos <= b.len(),
                buf@ == b.skip(pos),
                whole == devices_decoding(b, 12, count as nat),
                whole == match devices_decoding(b, pos, (count - i) as nat) {
                    (Err(e), end) => (Err(e), end),
                    (Ok(ds), end) => (Ok(device_models(devices@) + ds), end),
                },
                status == be32_at(b, 4),
                count == be32_at(b, 8),
                count <= MAX_DEVICES_IN_DEVLIST,
                op_header_decoding(b, OpCode::OpRepDevlist).0 is Ok,
                op_header_decoding(b, OpCode::OpRepDevlist).0->Ok_0 == status,
                b == old(buf)@,
                b.len() >= 12,
            decreases count - i,
        {
            let ghost read = device_with_interfaces_decoding(b.skip(pos));
            let ghost before = device_models(devices@);
            match decode_device_with_interfaces(buf) {
                Ok(d) => {
                    devices.push(d);
                    proof {
                        assert(device_models(devices@) =~= before.push(d@));
                        match devices_decoding(b, pos + read.1, (count - i - 1) as nat) {
                            (Ok(ds), end) => {
                                assert(before + (seq![d@] + ds) =~= before.push(d@) + ds);
                            },
                            _ => {},
                        }
                        pos = pos + read.1;
                    }
                },
                Err(e) => {
                    return Err(e);
                },
            }
            i = i + 1;
        }
        assert(device_models(devices@) + Seq::<UsbDeviceModel>::empty() =~= device_models(devices@));
        Ok(OpRepDevlist { status, devices })
    }

    fn wire_size(&self) -> usize {
        let mut total: usize = OP_HEADER_SIZE + 4;
        let mut i: usize = 0;
        let ghost models = device_models(self.devices@);
        proof {
            lemma_devices_size_prefix(models, 0);
        }
        while i < self.devices.len()
            invariant
                i <= self.devices@.len(),
                models == device_models(self.devices@),
                12 + devices_size(models) <= usize::MAX,
                total == 12 + devices_size(models.take(i as int)),
            decreases self.devices.len() - i,
        {
            proof {
                lemma_devices_size_prefix(models, i + 1);
                assert(models.take(i + 1).drop_last() =~= models.take(i as int));
                assert(models.take(i + 1).last() == self.devices@[i as int]@);
            }
            total = total + (USB_DEVICE_WIRE_SIZE + self.devices[i].interfaces.len()
                * USB_INTERFACE_WIRE_SIZE);
            i = i + 1;
        }
        assert(models.take(i as int) =~= models);
        total
    }
}

/// The first devices of a list take no more than all of them.
proof fn lemma_devices_size_prefix(ds: Seq<UsbDeviceModel>, i: int)
    requires
        0 <= i <= ds.len(),
    ensures
        devices_size(ds.take(i)) <= devices_size(ds),
    decreases ds.len() - i,
{
    if i < ds.len() {
        lemma_devices_size_prefix(ds, i + 1);
        assert(ds.take(i + 1).drop_last() =~= ds.take(i));
    } else {
        assert(ds.take(i) =~= ds);
    }
}

/// Ask to import a device.
#[derive(Debug, Clone, PartialEq, Eq)]
pub struct OpReqImport {
    /// The bus ID of the device.
    pub busid: BusId,
}

impl WireFormat for OpReqImport {
    /// The bytes of the bus ID.
    type Model = Seq<u8>;

    open spec fn model(&self) -> Seq<u8> {
        self.busid@
    }

    open spec fn encoding(m: Seq<u8>) -> Seq<u8> {
        op_header(OpCode::OpReqImport, 0) + m
    }

    open spec fn decoding(b: Seq<u8>) -> (Result<Seq<u8>, ProtocolError>, int) {
        if b.len() < 40 {
            (Err(too_short(40, b.len() as int)), 0)
        } else {
            match op_header_decoding(b, OpCode::OpReqImport) {
                (Err(e), n) => (Err(e), n),
                (Ok(_), _) => (Ok(b.subrange(8, 40)), 40),
            }
        }
    }

    open spec fn size(m: Seq<u8>) -> nat {
        40
    }

    fn encode(&self, buf: &mut Vec<u8>) {
        put_op_header(buf, OpCode::OpReqImport, 0);
        put_slice(buf, self.busid.as_slice());
        assert(buf@ =~= old(buf)@ + Self::encoding(self.model()));
    }

    fn decode(buf: &mut &[u8]) -> (r: Result<Self, ProtocolError>) {
        broadcast use lemma_skip_skip;

        let ghost b = buf@;
        if buf.len() < OP_REQ_IMPORT_SIZE {
            assert(buf@.skip(0) =~= buf@);
            return Err(
                ProtocolError::BufferTooShort { needed: OP_REQ_IMPORT_SIZE, available: buf.len() },
            );
        }
        match get_op_header(buf, OpCode::OpReqImport) {
            Ok(_) => {},
            Err(e) => {
                return Err(e);
            },
        }
        let busid: [u8; 32] = get_array::<32>(buf);
        assert(busid@ =~= b.subrange(8, 40));
        Ok(OpReqImport { busid })
    }

    fn wire_size(&self) -> usize {
        OP_REQ_IMPORT_SIZE
    }
}

/// The answer to an import.
#[derive(Debug, Clone, PartialEq, Eq)]
pub struct OpRepImport {
    /// Zero for success.
    pub status: u32,
    /// The device, present on success.
    pub device: Option<UsbDevice>,
}

/// What the answer to an import says.
pub struct OpRepImportModel {
    pub status: u32,
    pub device: Option<UsbDeviceModel>,
}

impl WireFormat for OpRepImport {
    type Model = OpRepImportModel;

    open spec fn model(&self) -> OpRepImportModel {
        OpRepImportModel {
            status: self.status,
            device: match self.device {
                Some(d) => Some(d@),
                None => None,
            },
        }
    }

    open spec fn encoding(m: OpRepImportModel) -> Seq<u8> {
        op_header(OpCode::OpRepImport, m.status) + match m.device {
            Some(d) => UsbDevice::encoding(d),
            None => Seq::empty(),
        }
    }

    open spec fn decoding(b: Seq<u8>) -> (Result<OpRepImportModel, ProtocolError>, int) {
        if b.len() < 8 {
            (Err(too_short(8, b.len() as int)), 0)
        } else {
            match op_header_decoding(b, OpCode::OpRepImport) {
                (Err(e), n) => (Err(e), n),
                (Ok(status), _) => if status != 0 {
                    (Ok(OpRepImportModel { status, device: None }), 8)
                } else {
                    match UsbDevice::decoding(b.skip(8)) {
                        (Err(e), n) => (Err(e), 8 + n),
                        (Ok(d), n) => (Ok(OpRepImportModel { status, device: Some(d) }), 8 + n),
                    }
                },
            }
        }
    }

    open spec fn size(m: OpRepImportModel) -> nat {
        if m.device is Some {
            320
        } else {
            8
        }
    }

    fn encode(&self, buf: &mut Vec<u8>) {
        put_op_header(buf, OpCode::OpRepImport, self.status);
        if let Some(device) = &self.device {
            device.encode(buf);
        }
        assert(buf@ =~= old(buf)@ + Self::encoding(self.model()));
    }

    fn decode(buf: &mut &[u8]) -> (r: Result<Self, ProtocolError>) {
        broadcast use lemma_skip_skip;

        if buf.len() < OP_HEADER_SIZE {
            assert(buf@.skip(0) =~= buf@);
            return Err(
                ProtocolError::BufferTooShort { needed: OP_HEADER_SIZE, available: buf.len() },
            );
        }
        let status = match get_op_header(buf, OpCode::OpRepImport) {
            Ok(s) => s,
            Err(e) => {
                return Err(e);
            },
        };
        if status != 0 {
            return Ok(OpRepImport { status, device: None });
        }
        match UsbDevice::decode(buf) {
            Ok(d) => Ok(OpRepImport { status, device: Some(d) }),
            Err(e) => Err(e),
        }
    }

    fn wire_size(&self) -> usize {
        if self.device.is_some() {
            OP_HEADER_SIZE + USB_DEVICE_WIRE_SIZE
        } else {
            OP_HEADER_SIZE
        }
    }
}

/// A discovery message.
#[derive(Debug, Clone, PartialEq, Eq)]
pub enum OpMessage {
    ReqDevlist(OpReqDevlist),
    RepDevlist(OpRepDevlist),
    ReqImport(OpReqImport),
    RepImport(Box<OpRepImport>),
}

/// A request for the device list is read back, whatever follows.
pub proof fn law_req_devlist_round_trip(rest: Seq<u8>)
    ensures
        OpReqDevlist::encoding(OpReqDevlist).len() == OpReqDevlist::size(OpReqDevlist),
        OpReqDevlist::decoding(OpReqDevlist::encoding(OpReqDevlist) + rest) == (
            Ok::<OpReqDevlist, ProtocolError>(OpReqDevlist),
            8int,
        ),
{
    lemma_op_header(OpCode::OpReqDevlist, 0, rest);
}

/// A request to import a device is read back as it was, whatever follows.
pub proof fn law_req_import_round_trip(busid: Seq<u8>, rest: Seq<u8>)
    requires
        busid.len() == 32,
    ensures
        OpReqImport::encoding(busid).len() == OpReqImport::size(busid),
        OpReqImport::decoding(OpReqImport::encoding(busid) + rest) == (
            Ok::<Seq<u8>, ProtocolError>(busid),
            40int,
        ),
{
    let b = OpReqImport::encoding(busid) + rest;
    lemma_op_header(OpCode::OpReqImport, 0, busid + rest);
    assert(b =~= op_header(OpCode::OpReqImport, 0) + (busid + rest));
    assert(b.subrange(8, 40) =~= busid);
}

/// The answer to an import is read back as it was, whatever follows: a device
/// is present exactly on success, and comes without interfaces.
pub proof fn law_rep_import_round_trip(m: OpRepImportModel, rest: Seq<u8>)
    requires
        m.device is Some <==> m.status == 0,
        m.device matches Some(d) ==> d.well_sized() && d.interfaces == Seq::<
            crate::protocol::device::UsbInterface,
        >::empty(),
    ensures
        OpRepImport::encoding(m).len() == OpRepImport::size(m),
        OpRepImport::decoding(OpRepImport::encoding(m) + rest) == (
            Ok::<OpRepImportModel, ProtocolError>(m),
            OpRepImport::size(m) as int,
        ),
{
    let b = OpRepImport::encoding(m) + rest;
    let head = op_header(OpCode::OpRepImport, m.status);
    match m.device {
        Some(d) => {
            let tail = UsbDevice::encoding(d) + rest;
            assert(b =~= head + tail);
            lemma_op_header(OpCode::OpRepImport, m.status, tail);
            assert(b.skip(8) =~= tail);
            law_device_round_trip(d, rest);
        },
        None => {
            assert(b =~= head + rest);
            lemma_op_header(OpCode::OpRepImport, m.status, rest);
        },
    }
}

/// Devices that can be read back: fields of their sizes, and as many
/// interfaces as announced.
pub open spec fn listable(ds: Seq<UsbDeviceModel>) -> bool {
    forall|i: int|
        0 <= i < ds.len() ==> (#[trigger] ds[i]).well_sized() && ds[i].num_interfaces
            == ds[i].interfaces.len()
}

/// The bytes of devices, taken from the front.
proof fn lemma_devices_encoding_front(ds: Seq<UsbDeviceModel>)
    requires
        ds.len() > 0,
    ensures
        devices_encoding(ds) == device_with_interfaces_encoding(ds[0]) + devices_encoding(
            ds.skip(1),
        ),
    decreases ds.len(),
{
    if ds.len() == 1 {
        assert(ds.drop_last() =~= Seq::empty());
        assert(ds.skip(1) =~= Seq::empty());
        assert(devices_encoding(ds) =~= device_with_interfaces_encoding(ds[0]) + devices_encoding(
            ds.skip(1),
        ));
    } else {
        lemma_devices_encoding_front(ds.drop_last());
        assert(ds.drop_last().skip(1) =~= ds.skip(1).drop_last());
        assert(devices_encoding(ds) =~= device_with_interfaces_encoding(ds[0]) + devices_encoding(
            ds.skip(1),
        ));
    }
}

/// The bytes of devices take the size given for them.
proof fn lemma_devices_encoding_len(ds: Seq<UsbDeviceModel>)
    requires
        forall|i: int| 0 <= i < ds.len() ==> (#[trigger] ds[i]).well_sized(),
    ensures
        devices_encoding(ds).len() == devices_size(ds),
    decreases ds.len(),
{
    if ds.len() > 0 {
        let front = ds.drop_last();
        assert forall|i: int| 0 <= i < front.len() implies (#[trigger] front[i]).well_sized() by {
            assert(front[i] == ds[i]);
        }
        lemma_devices_encoding_len(front);
        law_device_round_trip(ds.last(), Seq::empty());
        crate::protocol::wire::lemma_encodings_len::<crate::protocol::device::UsbInterface>(
            ds.last().interfaces,
            4,
        );
    }
}

proof fn lemma_middle(a: Seq<u8>, b: Seq<u8>, c: Seq<u8>, d: Seq<u8>)
    ensures
        (a + (b + c) + d).skip(a.len() as int) == b + (c + d),
        a + (b + c) + d == (a + b) + c + d,
        a + (b + c) == (a + b) + c,
{
    assert((a + (b + c) + d).skip(a.len() as int) =~= b + (c + d));
    assert(a + (b + c) + d =~= (a + b) + c + d);
    assert(a + (b + c) =~= (a + b) + c);
}

proof fn lemma_devices_decoding_step(
    b: Seq<u8>,
    pos: int,
    first: (Result<UsbDeviceModel, ProtocolError>, int),
    others: (Result<Seq<UsbDeviceModel>, ProtocolError>, int),
    n: nat,
)
    requires
        n > 0,
        first.0 is Ok,
        others.0 is Ok,
        device_with_interfaces_decoding(b.skip(pos)) == first,
        devices_decoding(b, pos + first.1, (n - 1) as nat) == others,
    ensures
        devices_decoding(b, pos, n) == (
            Ok::<Seq<UsbDeviceModel>, ProtocolError>(seq![first.0->Ok_0] + others.0->Ok_0),
            others.1,
        ),
{
}

proof fn lemma_devices_round_trip(ds: Seq<UsbDeviceModel>, head: Seq<u8>, rest: Seq<u8>)
    requires
        listable(ds),
    ensures
        devices_decoding(head + devices_encoding(ds) + rest, head.len() as int, ds.len()) == (
            Ok::<Seq<UsbDeviceModel>, ProtocolError>(ds),
            (head + devices_encoding(ds)).len() as int,
        ),
    decreases ds.len(),
{
    let b = head + devices_encoding(ds) + rest;
    if ds.len() > 0 {
        let first = device_with_interfaces_encoding(ds[0]);
        let others = ds.skip(1);
        lemma_devices_encoding_front(ds);
        assert forall|i: int| 0 <= i < others.len() implies (#[trigger] others[i]).well_sized()
            && others[i].num_interfaces == others[i].interfaces.len() by {
            assert(others[i] == ds[i + 1]);
        }
        lemma_devices_round_trip(others, head + first, rest);
        assert(ds[0].well_sized());
        law_device_with_interfaces_round_trip(ds[0], devices_encoding(others) + rest);
        lemma_middle(head, first, devices_encoding(others), rest);
        assert((head + first).len() == head.len() + first.len());
        lemma_devices_decoding_step(
            b,
            head.len() as int,
            (Ok(ds[0]), first.len() as int),
            (Ok(others), (head + first + devices_encoding(others)).len() as int),
            ds.len(),
        );
        assert(seq![ds[0]] + others =~= ds);
    } else {
        assert(ds =~= Seq::empty());
    }
}

/// A device list is read back as it was, whatever follows, where every device
/// has as many interfaces as it announces and there are no more than allowed.
pub proof fn law_rep_devlist_round_trip(m: OpRepDevlistModel, rest: Seq<u8>)
    requires
        listable(m.devices),
        m.devices.len() <= MAX_DEVICES_IN_DEVLIST,
    ensures
        OpRepDevlist::encoding(m).len() == OpRepDevlist::size(m),
        OpRepDevlist::decoding(OpRepDevlist::encoding(m) + rest) == (
            Ok::<OpRepDevlistModel, ProtocolError>(m),
            OpRepDevlist::size(m) as int,
        ),
{
    let b = OpRepDevlist::encoding(m) + rest;
    let n = m.devices.len() as u32;
    let header = op_header(OpCode::OpRepDevlist, m.status);
    let head = header + be32(n);
    let tail = be32(n) + devices_encoding(m.devices) + rest;
    assert(b =~= header + tail);
    lemma_op_header(OpCode::OpRepDevlist, m.status, tail);
    assert(b.subrange(8, 12) =~= be32(n));
    lemma_be32_at(b, 8, n);
    lemma_devices_round_trip(m.devices, head, rest);
    assert(b =~= head + devices_encoding(m.devices) + rest);
    lemma_devices_encoding_len(m.devices);
}

/// Every discovery message begins with the version, its code and a status.
pub open spec fn op_front(b: Seq<u8>, code: int, status: u32) -> bool {
    &&& b.len() >= 8
    &&& b[0] == 0x01
    &&& b[1] == 0x11
    &&& be16_at(b, 2) == code
    &&& be32_at(b, 4) == status
}

proof fn lemma_op_front(code: OpCode, status: u32, rest: Seq<u8>)
    ensures
        op_front(op_header(code, status) + rest, code.spec_code() as int, status),
{
    let b = op_header(code, status) + rest;
    lemma_op_header(code, status, rest);
    assert(b.subrange(0, 2) =~= be16(USBIP_VERSION));
    assert(b.subrange(0, 2)[0] == b[0] && b.subrange(0, 2)[1] == b[1]);
    assert(b.subrange(2, 4) =~= be16(code.spec_code()));
    lemma_be16_at(b, 2, code.spec_code());
    assert(b.subrange(4, 8) =~= be32(status));
    lemma_be32_at(b, 4, status);
}

/// The request for the list is its eight bytes of front, with no status.
pub proof fn law_req_devlist_layout(m: OpReqDevlist)
    ensures
        OpReqDevlist::encoding(m.model()).len() == 8,
        op_front(OpReqDevlist::encoding(m.model()), 0x8005, 0),
{
    lemma_op_front(OpCode::OpReqDevlist, 0, Seq::empty());
    let b = OpReqDevlist::encoding(m.model());
    assert(b + Seq::<u8>::empty() =~= b);
}

/// The request to import a device is the front, and the bus ID field.
pub proof fn law_req_import_layout(m: OpReqImport)
    ensures
        OpReqImport::encoding(m.model()).len() == 40,
        op_front(OpReqImport::encoding(m.model()), 0x8003, 0),
        OpReqImport::encoding(m.model()).subrange(8, 40) == m.busid@,
{
    lemma_op_front(OpCode::OpReqImport, 0, m.busid@);
    let b = OpReqImport::encoding(m.model());
    lemma_op_header(OpCode::OpReqImport, 0, m.busid@);
    assert(b.subrange(8, 40) =~= m.busid@);
}

/// A request to import a device that is read names the device from its place.
pub proof fn law_req_import_read(b: Seq<u8>, m: OpReqImport)
    requires
        OpReqImport::decoding(b).0 == Ok::<Seq<u8>, ProtocolError>(m.model()),
    ensures
        b.len() >= 40,
        be16_at(b, 0) == 0x0111,
        be16_at(b, 2) == 0x8003,
        b.subrange(8, 40) == m.busid@,
{
}

/// The answer to an import is the front with the status, and the device where
/// there is one.
pub proof fn law_rep_import_layout(m: OpRepImport)
    ensures
        op_front(OpRepImport::encoding(m.model()), 0x0003, m.status),
        m.device is None ==> OpRepImport::encoding(m.model()).len() == 8,
        m.device matches Some(d) ==> OpRepImport::encoding(m.model()).len() == 320
            && device_stands(OpRepImport::encoding(m.model()).skip(8), d),
{
    let b = OpRepImport::encoding(m.model());
    let tail = match m.device {
        Some(d) => UsbDevice::encoding(d@),
        None => Seq::empty(),
    };
    lemma_op_front(OpCode::OpRepImport, m.status, tail);
    lemma_op_header(OpCode::OpRepImport, m.status, tail);
    match m.device {
        Some(d) => {
            law_device_layout(d);
            assert(b.skip(8) =~= UsbDevice::encoding(d@));
        },
        None => {
            assert(b =~= op_header(OpCode::OpRepImport, m.status) + tail);
        },
    }
}

/// The answer to an import that is read has its status from its place, and the
/// device exactly where the status is zero.
pub proof fn law_rep_import_read(b: Seq<u8>, m: OpRepImport)
    requires
        OpRepImport::decoding(b).0 == Ok::<OpRepImportModel, ProtocolError>(m.model()),
    ensures
        op_front(b, 0x0003, m.status),
        m.device is Some <==> m.status == 0,
        m.device matches Some(d) ==> device_stands(b.skip(8), d),
        OpRepImport::decoding(b).1 == if m.status == 0 {
            320int
        } else {
            8
        },
{
    match m.device {
        Some(d) => {
            law_device_read(b.skip(8), d);
        },
        None => {},
    }
}

/// The list is the front with the status, the number of devices, and the
/// devices with their interfaces, one behind the other.
pub proof fn law_rep_devlist_layout(m: OpRepDevlist)
    requires
        m.devices@.len() <= u32::MAX,
    ensures
        op_front(OpRepDevlist::encoding(m.model()), 0x0005, m.status),
        be32_at(OpRepDevlist::encoding(m.model()), 8) == m.devices@.len(),
        forall|i: int|
            #![trigger m.devices@[i]]
            0 <= i < m.devices@.len() ==> OpRepDevlist::encoding(m.model()).skip(
                devices_before(m.devices@, i),
            ).take(312 + 4 * (m.devices@[i].interfaces@.len() as int)) == device_with_interfaces_encoding(
                m.devices@[i]@,
            ),
{
    let b = OpRepDevlist::encoding(m.model());
    let ds = device_models(m.devices@);
    let n = m.devices@.len() as u32;
    let tail = be32(n) + devices_encoding(ds);
    assert(b =~= op_header(OpCode::OpRepDevlist, m.status) + tail);
    lemma_op_front(OpCode::OpRepDevlist, m.status, tail);
    lemma_op_header(OpCode::OpRepDevlist, m.status, tail);
    assert(b.subrange(8, 12) =~= be32(n));
    lemma_be32_at(b, 8, n);
    assert(b.skip(12) =~= devices_encoding(ds));
    assert forall|i: int| #![trigger m.devices@[i]] 0 <= i < m.devices@.len() implies b.skip(
        devices_before(m.devices@, i),
    ).take(312 + 4 * (m.devices@[i].interfaces@.len() as int)) == device_with_interfaces_encoding(
        m.devices@[i]@,
    ) by {
        lemma_devices_in_order(m.devices@, i);
        let at = devices_before(m.devices@, i);
        let size = 312 + 4 * m.devices@[i].interfaces@.len();
        lemma_skip_skip(b, 12, at - 12);
    }
}

/// Where a device of a list begins: behind the front, the number and the
/// devices before it, each 312 bytes long and four more for every interface.
pub open spec fn devices_before(ds: Seq<UsbDevice>, i: int) -> int
    decreases i,
{
    if i <= 0 {
        12
    } else {
        devices_before(ds, i - 1) + 312 + 4 * ds[i - 1].interfaces@.len()
    }
}

proof fn lemma_device_len(d: UsbDevice)
    ensures
        device_with_interfaces_encoding(d@).len() == 312 + 4 * d.interfaces@.len(),
{
    law_device_layout(d);
    crate::protocol::wire::lemma_encodings_len::<crate::protocol::device::UsbInterface>(
        d.interfaces@,
        4,
    );
}

proof fn lemma_devices_in_order(ds: Seq<UsbDevice>, i: int)
    requires
        0 <= i < ds.len(),
    ensures
        12 <= devices_before(ds, i),
        devices_before(ds, i) - 12 + 312 + 4 * ds[i].interfaces@.len() <= devices_encoding(
            device_models(ds),
        ).len(),
        devices_encoding(device_models(ds)).len() == devices_before(ds, ds.len() as int) - 12,
        devices_encoding(device_models(ds)).skip(devices_before(ds, i) - 12).take(
            312 + 4 * (ds[i].interfaces@.len() as int),
        ) == device_with_interfaces_encoding(ds[i]@),
    decreases ds.len(),
{
    let ms = device_models(ds);
    let front = ds.drop_last();
    let last = ds.len() - 1;
    let all = devices_encoding(ms);
    assert(ms.drop_last() =~= device_models(front));
    lemma_device_len(ds.last());
    lemma_same_before(ds, front, last);
    if last == 0 {
        assert(ms.drop_last() =~= Seq::empty());
    } else {
        lemma_devices_in_order(front, 0);
        lemma_devices_in_order(front, if i < last { i } else { 0 });
    }
    let size = 312 + 4 * (ds[i].interfaces@.len() as int);
    let at = devices_before(ds, i) - 12;
    if i < last {
        lemma_same_before(ds, front, i);
        assert(front[i] == ds[i]);
        assert(all.skip(at).take(size) =~= devices_encoding(device_models(front)).skip(at).take(
            size,
        ));
    } else {
        assert(all.skip(at).take(size) =~= device_with_interfaces_encoding(ds[i]@));
    }
}

proof fn lemma_same_before(ds: Seq<UsbDevice>, es: Seq<UsbDevice>, i: int)
    requires
        0 <= i <= es.len() <= ds.len(),
        forall|j: int| 0 <= j < es.len() ==> es[j] == ds[j],
    ensures
        devices_before(ds, i) == devices_before(es, i),
        devices_before(ds, i) >= 12,
    decreases i,
{
    if i > 0 {
        lemma_same_before(ds, es, i - 1);
    }
}

proof fn lemma_devices_read(b: Seq<u8>, ds: Seq<UsbDevice>, k: int, pos: int)
    requires
        0 <= k <= ds.len(),
        pos == devices_before(ds, k),
        devices_decoding(b, pos, (ds.len() - k) as nat).0 == Ok::<
            Seq<UsbDeviceModel>,
            ProtocolError,
        >(device_models(ds).skip(k)),
    ensures
        devices_decoding(b, pos, (ds.len() - k) as nat).1 == devices_before(ds, ds.len() as int),
        forall|i: int|
            #![trigger ds[i]]
            k <= i < ds.len() ==> device_with_interfaces_decoding(b.skip(devices_before(ds, i))).0
                == Ok::<UsbDeviceModel, ProtocolError>(ds[i]@),
    decreases ds.len() - k,
{
    if k < ds.len() {
        let ms = device_models(ds);
        let first = device_with_interfaces_decoding(b.skip(pos));
        let n = (ds.len() - k) as nat;
        assert(ms.skip(k)[0] == ds[k]@);
        match first {
            (Err(_), _) => {},
            (Ok(d), size) => {
                let others = devices_decoding(b, pos + size, (n - 1) as nat);
                match others.0 {
                    Ok(rest) => {
                        assert((seq![d] + rest)[0] == d);
                        assert(rest =~= ms.skip(k + 1)) by {
                            assert((seq![d] + rest).skip(1) =~= rest);
                            assert(ms.skip(k).skip(1) =~= ms.skip(k + 1));
                        }
                        law_device_with_interfaces_read(b.skip(pos), ds[k]);
                        lemma_devices_read(b, ds, k + 1, pos + size);
                    },
                    Err(_) => {},
                }
            },
        }
    }
}

/// The list that is read has its status from its place, as many devices as it
/// announces and no more than 256, each from where the one before it ends.
pub proof fn law_rep_devlist_read(b: Seq<u8>, m: OpRepDevlist)
    requires
        OpRepDevlist::decoding(b).0 == Ok::<OpRepDevlistModel, ProtocolError>(m.model()),
    ensures
        op_front(b, 0x0005, m.status),
        be32_at(b, 8) == m.devices@.len(),
        m.devices@.len() <= 256,
        forall|i: int|
            #![trigger m.devices@[i]]
            0 <= i < m.devices@.len() ==> device_with_interfaces_decoding(
                b.skip(devices_before(m.devices@, i)),
            ).0 == Ok::<UsbDeviceModel, ProtocolError>(m.devices@[i]@),
        OpRepDevlist::decoding(b).1 == devices_before(m.devices@, m.devices@.len() as int),
{
    let count = be32_at(b, 8);
    lemma_devices_count(b, 12, count as nat);
    assert(device_models(m.devices@).skip(0) =~= device_models(m.devices@));
    lemma_devices_read(b, m.devices@, 0, 12);
}

proof fn lemma_devices_count(b: Seq<u8>, pos: int, n: nat)
    ensures
        devices_decoding(b, pos, n).0 matches Ok(ds) ==> ds.len() == n,
    decreases n,
{
    if n > 0 {
        lemma_devices_count(
            b,
            pos + device_with_interfaces_decoding(b.skip(pos)).1,
            (n - 1) as nat,
        );
    }
}

} // verus!
