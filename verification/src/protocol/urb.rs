//! The messages of an attached device: request blocks, their results, and
//! their cancellation.

use bytes::Bytes;
use vstd::prelude::*;

use crate::endian::{be32, be32_at, lemma_be32_at};
use crate::protocol::buf::{
    advance, bytes_as_ref, bytes_new, bytes_seq, get_array, get_bytes, get_i32, get_u32, put_i32,
    put_slice, put_u32, put_u8,
};
use crate::protocol::codes::Command;
use crate::protocol::error::ProtocolError;
use crate::protocol::wire::{
    encodings, lemma_encodings_at, lemma_encodings_len, lemma_skip_skip, too_short, WireFormat,
};

verus! {

/// The status of a successful cancellation.
pub const ECONNRESET: i32 = -104;

/// Size of the header that every message has.
pub const HEADER_BASIC_SIZE: usize = 20;

/// Size of what follows the header of a submission.
pub const CMD_SUBMIT_FIELDS_SIZE: usize = 28;

/// Size of what follows the header of a result.
pub const RET_SUBMIT_FIELDS_SIZE: usize = 28;

/// Size of what follows the header of a cancellation.
pub const CMD_UNLINK_FIELDS_SIZE: usize = 28;

/// Size of what follows the header of the result of a cancellation.
pub const RET_UNLINK_FIELDS_SIZE: usize = 28;

/// The longest transfer buffer.
pub const MAX_TRANSFER_BUFFER_LENGTH: u32 = 1_048_576;

/// The most devices in a device list.
pub const MAX_DEVICES_IN_DEVLIST: u32 = 256;

/// The most isochronous packets of a request.
pub const MAX_ISO_PACKETS: u32 = 1024;

/// Size of an isochronous packet descriptor.
pub const ISO_PACKET_DESCRIPTOR_SIZE: usize = 16;

/// The packet count of a transfer that is not isochronous.
pub const NON_ISO_PACKETS_SENTINEL: u32 = 0xFFFF_FFFF;

/// Size of everything before the transfer buffer.
pub const URB_HEADER_TOTAL_SIZE: usize = 48;

/// The header that every message has.
#[derive(Debug, Clone, Copy, PartialEq, Eq, Structural)]
pub struct UsbipHeaderBasic {
    pub command: u32,
    /// Ties a result to its request.
    pub seqnum: u32,
    pub devid: u32,
    /// 0 towards the device, 1 from it.
    pub direction: u32,
    /// The endpoint number.
    pub ep: u32,
}

/// The header that stands at the front of `b`.
pub open spec fn header_at(b: Seq<u8>) -> UsbipHeaderBasic {
    UsbipHeaderBasic {
        command: be32_at(b, 0),
        seqnum: be32_at(b, 4),
        devid: be32_at(b, 8),
        direction: be32_at(b, 12),
        ep: be32_at(b, 16),
    }
}

impl WireFormat for UsbipHeaderBasic {
    type Model = UsbipHeaderBasic;

    open spec fn model(&self) -> UsbipHeaderBasic {
        *self
    }

    open spec fn encoding(m: UsbipHeaderBasic) -> Seq<u8> {
        be32(m.command) + be32(m.seqnum) + be32(m.devid) + be32(m.direction) + be32(m.ep)
    }

    open spec fn decoding(b: Seq<u8>) -> (Result<UsbipHeaderBasic, ProtocolError>, int) {
        if b.len() < 20 {
            (Err(too_short(20, b.len() as int)), 0)
        } else {
            (Ok(header_at(b)), 20)
        }
    }

    open spec fn size(m: UsbipHeaderBasic) -> nat {
        20
    }

    fn encode(&self, buf: &mut Vec<u8>) {
        put_u32(buf, self.command);
        put_u32(buf, self.seqnum);
        put_u32(buf, self.devid);
        put_u32(buf, self.direction);
        put_u32(buf, self.ep);
        assert(buf@ =~= old(buf)@ + Self::encoding(*self));
    }

    fn decode(buf: &mut &[u8]) -> (r: Result<Self, ProtocolError>) {
        broadcast use lemma_skip_skip;

        if buf.len() < HEADER_BASIC_SIZE {
            assert(buf@.skip(0) =~= buf@);
            return Err(
                ProtocolError::BufferTooShort { needed: HEADER_BASIC_SIZE, available: buf.len() },
            );
        }
        let command = get_u32(buf);
        let seqnum = get_u32(buf);
        let devid = get_u32(buf);
        let direction = get_u32(buf);
        let ep = get_u32(buf);
        Ok(UsbipHeaderBasic { command, seqnum, devid, direction, ep })
    }

    fn wire_size(&self) -> usize {
        HEADER_BASIC_SIZE
    }
}

/// A packet of an isochronous transfer.
#[derive(Debug, Clone, Copy, PartialEq, Eq, Structural)]
pub struct IsoPacketDescriptor {
    /// Where the packet starts in the transfer buffer.
    pub offset: u32,
    /// The expected length.
    pub length: u32,
    /// The transferred length, in a result.
    pub actual_length: u32,
    /// The status, in a result.
    pub status: u32,
}

/// The packet descriptor that stands at `i`.
pub open spec fn iso_at(b: Seq<u8>, i: int) -> IsoPacketDescriptor {
    IsoPacketDescriptor {
        offset: be32_at(b, i),
        length: be32_at(b, i + 4),
        actual_length: be32_at(b, i + 8),
        status: be32_at(b, i + 12),
    }
}

impl WireFormat for IsoPacketDescriptor {
    type Model = IsoPacketDescriptor;

    open spec fn model(&self) -> IsoPacketDescriptor {
        *self
    }

    open spec fn encoding(m: IsoPacketDescriptor) -> Seq<u8> {
        be32(m.offset) + be32(m.length) + be32(m.actual_length) + be32(m.status)
    }

    open spec fn decoding(b: Seq<u8>) -> (Result<IsoPacketDescriptor, ProtocolError>, int) {
        if b.len() < 16 {
            (Err(too_short(16, b.len() as int)), 0)
        } else {
            (Ok(iso_at(b, 0)), 16)
        }
    }

    open spec fn size(m: IsoPacketDescriptor) -> nat {
        16
    }

    fn encode(&self, buf: &mut Vec<u8>) {
        put_u32(buf, self.offset);
        put_u32(buf, self.length);
        put_u32(buf, self.actual_length);
        put_u32(buf, self.status);
        assert(buf@ =~= old(buf)@ + Self::encoding(*self));
    }

    fn decode(buf: &mut &[u8]) -> (r: Result<Self, ProtocolError>) {
        broadcast use lemma_skip_skip;

        if buf.len() < ISO_PACKET_DESCRIPTOR_SIZE {
            assert(buf@.skip(0) =~= buf@);
            return Err(
                ProtocolError::BufferTooShort {
                    needed: ISO_PACKET_DESCRIPTOR_SIZE,
                    available: buf.len(),
                },
            );
        }
        let offset = get_u32(buf);
        let length = get_u32(buf);
        let actual_length = get_u32(buf);
        let status = get_u32(buf);
        Ok(IsoPacketDescriptor { offset, length, actual_length, status })
    }

    fn wire_size(&self) -> usize {
        ISO_PACKET_DESCRIPTOR_SIZE
    }
}

/// Whether a packet count is that of an isochronous transfer.
pub fn is_iso_transfer(number_of_packets: u32) -> (b: bool)
    ensures
        b == (number_of_packets != NON_ISO_PACKETS_SENTINEL),
{
    number_of_packets != NON_ISO_PACKETS_SENTINEL
}

/// The bytes of a transfer buffer and, for an isochronous transfer, of its
/// packet descriptors.
pub open spec fn payload_encoding(
    data: Seq<u8>,
    packets: u32,
    descs: Seq<IsoPacketDescriptor>,
) -> Seq<u8> {
    if packets != NON_ISO_PACKETS_SENTINEL {
        data + encodings::<IsoPacketDescriptor>(descs)
    } else {
        data
    }
}

/// What is read as a transfer buffer of `len` bytes and the packet descriptors
/// that follow it, and how many bytes are read.
pub open spec fn payload_decoding(b: Seq<u8>, len: int, packets: u32) -> (
    Result<(Seq<u8>, Seq<IsoPacketDescriptor>), ProtocolError>,
    int,
) {
    if b.len() < len {
        (Err(too_short(len, b.len() as int)), 0)
    } else if packets == NON_ISO_PACKETS_SENTINEL {
        (Ok((b.take(len), Seq::empty())), len)
    } else if packets > MAX_ISO_PACKETS {
        (Err(ProtocolError::TooManyIsoPackets { count: packets, max: MAX_ISO_PACKETS }), len)
    } else if b.len() - len < packets * 16 {
        (Err(too_short(packets * 16, b.len() - len)), len)
    } else {
        (
            Ok((b.take(len), Seq::new(packets as nat, |i: int| iso_at(b, len + 16 * i)))),
            len + packets * 16,
        )
    }
}

fn put_payload(
    buf: &mut Vec<u8>,
    data: &Bytes,
    packets: u32,
    descs: &Vec<IsoPacketDescriptor>,
)
    ensures
        final(buf)@ == old(buf)@ + payload_encoding(bytes_seq(*data), packets, descs@),
{
    put_slice(buf, bytes_as_ref(data));
    if is_iso_transfer(packets) {
        let ghost start = buf@;
        let mut i: usize = 0;
        while i < descs.len()
            invariant
                i <= descs@.len(),
                buf@ == start + encodings::<IsoPacketDescriptor>(descs@.take(i as int)),
            decreases descs.len() - i,
        {
            descs[i].encode(buf);
            proof {
                let next = descs@.take(i + 1);
                assert(next.drop_last() =~= descs@.take(i as int));
                assert(buf@ =~= start + encodings::<IsoPacketDescriptor>(next));
            }
            i = i + 1;
        }
        assert(descs@.take(i as int) =~= descs@);
    }
    assert(buf@ =~= old(buf)@ + payload_encoding(bytes_seq(*data), packets, descs@));
}

fn get_payload(buf: &mut &[u8], len: usize, packets: u32) -> (r: Result<
    (Bytes, Vec<IsoPacketDescriptor>),
    ProtocolError,
>)
    ensures
        match r {
            Ok((data, descs)) => payload_decoding(old(buf)@, len as int, packets).0 == Ok::<
                (Seq<u8>, Seq<IsoPacketDescriptor>),
                ProtocolError,
            >((bytes_seq(data), descs@)),
            Err(e) => payload_decoding(old(buf)@, len as int, packets).0 == Err::<
                (Seq<u8>, Seq<IsoPacketDescriptor>),
                ProtocolError,
            >(e),
        },
        final(buf)@ == old(buf)@.skip(payload_decoding(old(buf)@, len as int, packets).1),
{
    broadcast use lemma_skip_skip;

    let ghost b = buf@;
    if buf.len() < len {
        assert(buf@.skip(0) =~= buf@);
        return Err(ProtocolError::BufferTooShort { needed: len, available: buf.len() });
    }
    assert(b.skip(0) =~= b);
    assert(b.take(0) =~= Seq::empty());
    let data = if len > 0 {
        get_bytes(buf, len)
    } else {
        bytes_new()
    };
    let mut descs: Vec<IsoPacketDescriptor> = Vec::new();
    if is_iso_transfer(packets) {
        if packets > MAX_ISO_PACKETS {
            return Err(
                ProtocolError::TooManyIsoPackets { count: packets, max: MAX_ISO_PACKETS },
            );
        }
        let needed: usize = packets as usize * ISO_PACKET_DESCRIPTOR_SIZE;
        if buf.len() < needed {
            return Err(ProtocolError::BufferTooShort { needed, available: buf.len() });
        }
        let mut i: u32 = 0;
        while i < packets
            invariant
                i <= packets <= MAX_ISO_PACKETS,
                len + packets * 16 <= b.len(),
                buf@ == b.skip(len + 16 * i),
                descs@ =~= Seq::new(i as nat, |j: int| iso_at(b, len + 16 * j)),
            decreases packets - i,
        {
            match IsoPacketDescriptor::decode(buf) {
                Ok(d) => {
                    assert(d == iso_at(b, len + 16 * i));
                    descs.push(d);
                },
                Err(e) => {
                    return Err(e);
                },
            }
            i = i + 1;
        }
    } else {
        assert(descs@ =~= Seq::empty());
    }
    Ok((data, descs))
}

/// A transfer buffer and packet descriptors are read back as they were,
/// whatever follows.
pub proof fn lemma_payload_round_trip(
    data: Seq<u8>,
    packets: u32,
    descs: Seq<IsoPacketDescriptor>,
    rest: Seq<u8>,
)
    requires
        packets == NON_ISO_PACKETS_SENTINEL ==> descs.len() == 0,
        packets != NON_ISO_PACKETS_SENTINEL ==> packets <= MAX_ISO_PACKETS && descs.len()
            == packets,
    ensures
        payload_encoding(data, packets, descs).len() == data.len() + 16 * descs.len(),
        payload_decoding(
            payload_encoding(data, packets, descs) + rest,
            data.len() as int,
            packets,
        ) == (
            Ok::<(Seq<u8>, Seq<IsoPacketDescriptor>), ProtocolError>((data, descs)),
            payload_encoding(data, packets, descs).len() as int,
        ),
{
    let b = payload_encoding(data, packets, descs) + rest;
    let len = data.len() as int;
    assert(b.take(len) =~= data);
    if packets != NON_ISO_PACKETS_SENTINEL {
        let tail = encodings::<IsoPacketDescriptor>(descs);
        lemma_encodings_len::<IsoPacketDescriptor>(descs, 16);
        let got = Seq::new(packets as nat, |i: int| iso_at(b, len + 16 * i));
        assert forall|i: int| 0 <= i < packets implies got[i] == descs[i] by {
            lemma_encodings_at::<IsoPacketDescriptor>(descs, 16, i);
            let part = IsoPacketDescriptor::encoding(descs[i]);
            assert(b.subrange(len + 16 * i, len + 16 * i + 16) =~= tail.subrange(
                16 * i,
                16 * i + 16,
            ));
            lemma_iso_at(b, len + 16 * i, descs[i]);
        }
        assert(got =~= descs);
    } else {
        assert(descs =~= Seq::empty());
    }
}

proof fn lemma_iso_at(b: Seq<u8>, i: int, d: IsoPacketDescriptor)
    requires
        0 <= i,
        i + 16 <= b.len(),
        b.subrange(i, i + 16) == IsoPacketDescriptor::encoding(d),
    ensures
        iso_at(b, i) == d,
{
    let part = b.subrange(i, i + 16);
    assert(b.subrange(i, i + 4) =~= part.subrange(0, 4));
    assert(b.subrange(i + 4, i + 8) =~= part.subrange(4, 8));
    assert(b.subrange(i + 8, i + 12) =~= part.subrange(8, 12));
    assert(b.subrange(i + 12, i + 16) =~= part.subrange(12, 16));
    assert(part.subrange(0, 4) =~= be32(d.offset));
    assert(part.subrange(4, 8) =~= be32(d.length));
    assert(part.subrange(8, 12) =~= be32(d.actual_length));
    assert(part.subrange(12, 16) =~= be32(d.status));
    lemma_be32_at(b, i, d.offset);
    lemma_be32_at(b, i + 4, d.length);
    lemma_be32_at(b, i + 8, d.actual_length);
    lemma_be32_at(b, i + 12, d.status);
}

/// `n` zero bytes.
pub open spec fn zeros(n: nat) -> Seq<u8> {
    Seq::new(n, |i: int| 0u8)
}

fn put_zeros(buf: &mut Vec<u8>, n: usize)
    ensures
        final(buf)@ == old(buf)@ + zeros(n as nat),
{
    let mut i: usize = 0;
    while i < n
        invariant
            i <= n,
            buf@ =~= old(buf)@ + zeros(i as nat),
        decreases n - i,
    {
        put_u8(buf, 0);
        i = i + 1;
    }
}

/// Submit a request block.
#[derive(Debug, Clone, PartialEq, Eq)]
pub struct CmdSubmit {
    pub header: UsbipHeaderBasic,
    pub transfer_flags: u32,
    /// Length of the transfer buffer.
    pub transfer_buffer_length: u32,
    pub start_frame: u32,
    /// The number of isochronous packets, or the sentinel.
    pub number_of_packets: u32,
    pub interval: u32,
    /// The setup packet of a control transfer.
    pub setup: [u8; 8],
    /// The data, towards the device.
    pub transfer_buffer: Bytes,
    /// The packets of an isochronous transfer.
    pub iso_packet_descriptors: Vec<IsoPacketDescriptor>,
}

/// What a submission says.
pub struct CmdSubmitModel {
    pub header: UsbipHeaderBasic,
    pub transfer_flags: u32,
    pub transfer_buffer_length: u32,
    pub start_frame: u32,
    pub number_of_packets: u32,
    pub interval: u32,
    pub setup: Seq<u8>,
    pub transfer_buffer: Seq<u8>,
    pub iso_packet_descriptors: Seq<IsoPacketDescriptor>,
}

impl View for CmdSubmit {
    type V = CmdSubmitModel;

    open spec fn view(&self) -> CmdSubmitModel {
        CmdSubmitModel {
            header: self.header,
            transfer_flags: self.transfer_flags,
            transfer_buffer_length: self.transfer_buffer_length,
            start_frame: self.start_frame,
            number_of_packets: self.number_of_packets,
            interval: self.interval,
            setup: self.setup@,
            transfer_buffer: bytes_seq(self.transfer_buffer),
            iso_packet_descriptors: self.iso_packet_descriptors@,
        }
    }
}

impl CmdSubmitModel {
    /// The message says the same to a reader: its command is its own, its
    /// transfer buffer has the announced length and is there exactly towards
    /// the device, and there are as many packets as announced.
    pub open spec fn consistent(self) -> bool {
        &&& self.header.command == Command::CmdSubmit.spec_code()
        &&& self.setup.len() == 8
        &&& self.transfer_buffer_length <= MAX_TRANSFER_BUFFER_LENGTH
        &&& self.transfer_buffer.len() == if self.header.direction == 0 {
            self.transfer_buffer_length as nat
        } else {
            0
        }
        &&& packets_consistent(self.number_of_packets, self.iso_packet_descriptors)
    }
}

/// There are as many packets as announced, and not too many.
pub open spec fn packets_consistent(packets: u32, descs: Seq<IsoPacketDescriptor>) -> bool {
    if packets == NON_ISO_PACKETS_SENTINEL {
        descs.len() == 0
    } else {
        packets <= MAX_ISO_PACKETS && descs.len() == packets
    }
}

/// The size given for a message with a transfer buffer and packets.
pub open spec fn submit_size(data: Seq<u8>, descs: Seq<IsoPacketDescriptor>) -> nat {
    48 + data.len() + 16 * descs.len()
}

impl WireFormat for CmdSubmit {
    type Model = CmdSubmitModel;

    open spec fn model(&self) -> CmdSubmitModel {
        self@
    }

    open spec fn encoding(m: CmdSubmitModel) -> Seq<u8> {
        UsbipHeaderBasic::encoding(m.header) + be32(m.transfer_flags) + be32(
            m.transfer_buffer_length,
        ) + be32(m.start_frame) + be32(m.number_of_packets) + be32(m.interval) + m.setup
            + payload_encoding(m.transfer_buffer, m.number_of_packets, m.iso_packet_descriptors)
    }

    open spec fn decoding(b: Seq<u8>) -> (Result<CmdSubmitModel, ProtocolError>, int) {
        if b.len() < 20 {
            (Err(too_short(20, b.len() as int)), 0)
        } else if header_at(b).command != Command::CmdSubmit.spec_code() {
            (Err(ProtocolError::InvalidCommand(header_at(b).command)), 20)
        } else if b.len() < 48 {
            (Err(too_short(28, b.len() - 20)), 20)
        } else if be32_at(b, 24) > MAX_TRANSFER_BUFFER_LENGTH {
            (
                Err(
                    ProtocolError::TransferTooLarge {
                        length: be32_at(b, 24),
                        max: MAX_TRANSFER_BUFFER_LENGTH,
                    },
                ),
                28,
            )
        } else {
            let len = if header_at(b).direction == 0 {
                be32_at(b, 24) as int
            } else {
                0
            };
            match payload_decoding(b.skip(48), len, be32_at(b, 32)) {
                (Err(e), n) => (Err(e), 48 + n),
                (Ok((data, descs)), n) => (
                    Ok(
                        CmdSubmitModel {
                            header: header_at(b),
                            transfer_flags: be32_at(b, 20),
                            transfer_buffer_length: be32_at(b, 24),
                            start_frame: be32_at(b, 28),
                            number_of_packets: be32_at(b, 32),
                            interval: be32_at(b, 36),
                            setup: b.subrange(40, 48),
                            transfer_buffer: data,
                            iso_packet_descriptors: descs,
                        },
                    ),
                    48 + n,
                ),
            }
        }
    }

    open spec fn size(m: CmdSubmitModel) -> nat {
        submit_size(m.transfer_buffer, m.iso_packet_descriptors)
    }

    fn encode(&self, buf: &mut Vec<u8>) {
        self.header.encode(buf);
        put_u32(buf, self.transfer_flags);
        put_u32(buf, self.transfer_buffer_length);
        put_u32(buf, self.start_frame);
        put_u32(buf, self.number_of_packets);
        put_u32(buf, self.interval);
        put_slice(buf, self.setup.as_slice());
        let ghost head = buf@;
        put_payload(
            buf,
            &self.transfer_buffer,
            self.number_of_packets,
            &self.iso_packet_descriptors,
        );
        assert(buf@ =~= old(buf)@ + Self::encoding(self@));
    }

    fn decode(buf: &mut &[u8]) -> (r: Result<Self, ProtocolError>) {
        broadcast use lemma_skip_skip;

        let ghost b = buf@;
        let header = match UsbipHeaderBasic::decode(buf) {
            Ok(h) => h,
            Err(e) => {
                return Err(e);
            },
        };
        if header.command != Command::CmdSubmit.code() {
            return Err(ProtocolError::InvalidCommand(header.command));
        }
        if buf.len() < CMD_SUBMIT_FIELDS_SIZE {
            return Err(
                ProtocolError::BufferTooShort {
                    needed: CMD_SUBMIT_FIELDS_SIZE,
                    available: buf.len(),
                },
            );
        }
        let transfer_flags = get_u32(buf);
        let transfer_buffer_length = get_u32(buf);
        if transfer_buffer_length > MAX_TRANSFER_BUFFER_LENGTH {
            return Err(
                ProtocolError::TransferTooLarge {
                    length: transfer_buffer_length,
                    max: MAX_TRANSFER_BUFFER_LENGTH,
                },
            );
        }
        let start_frame = get_u32(buf);
        let number_of_packets = get_u32(buf);
        let interval = get_u32(buf);
        let setup: [u8; 8] = get_array::<8>(buf);
        assert(setup@ =~= b.subrange(40, 48));
        let len: usize = if header.direction == 0 {
            transfer_buffer_length as usize
        } else {
            0
        };
        match get_payload(buf, len, number_of_packets) {
            Ok((transfer_buffer, iso_packet_descriptors)) => Ok(
                CmdSubmit {
                    header,
                    transfer_flags,
                    transfer_buffer_length,
                    start_frame,
                    number_of_packets,
                    interval,
                    setup,
                    transfer_buffer,
                    iso_packet_descriptors,
                },
            ),
            Err(e) => Err(e),
        }
    }

    fn wire_size(&self) -> usize {
        let data = bytes_as_ref(&self.transfer_buffer);
        URB_HEADER_TOTAL_SIZE + data.len() + self.iso_packet_descriptors.len()
            * ISO_PACKET_DESCRIPTOR_SIZE
    }
}

/// The result of a request block.
#[derive(Debug, Clone, PartialEq, Eq)]
pub struct RetSubmit {
    pub header: UsbipHeaderBasic,
    /// Zero for success, negative for an error.
    pub status: i32,
    /// The number of bytes transferred.
    pub actual_length: u32,
    pub start_frame: u32,
    /// The number of isochronous packets, or the sentinel.
    pub number_of_packets: u32,
    /// The number of packets in error.
    pub error_count: u32,
    /// The data, from the device.
    pub transfer_buffer: Bytes,
    /// The packets of an isochronous transfer.
    pub iso_packet_descriptors: Vec<IsoPacketDescriptor>,
}

/// What the result of a request block says.
pub struct RetSubmitModel {
    pub header: UsbipHeaderBasic,
    pub status: i32,
    pub actual_length: u32,
    pub start_frame: u32,
    pub number_of_packets: u32,
    pub error_count: u32,
    pub transfer_buffer: Seq<u8>,
    pub iso_packet_descriptors: Seq<IsoPacketDescriptor>,
}

impl View for RetSubmit {
    type V = RetSubmitModel;

    open spec fn view(&self) -> RetSubmitModel {
        RetSubmitModel {
            header: self.header,
            status: self.status,
            actual_length: self.actual_length,
            start_frame: self.start_frame,
            number_of_packets: self.number_of_packets,
            error_count: self.error_count,
            transfer_buffer: bytes_seq(self.transfer_buffer),
            iso_packet_descriptors: self.iso_packet_descriptors@,
        }
    }
}

impl RetSubmitModel {
    /// The message says the same to a reader: its command is its own, its
    /// transfer buffer has the announced length and is there exactly from the
    /// device, and there are as many packets as announced.
    pub open spec fn consistent(self) -> bool {
        &&& self.header.command == Command::RetSubmit.spec_code()
        &&& self.actual_length <= MAX_TRANSFER_BUFFER_LENGTH
        &&& self.transfer_buffer.len() == if self.header.direction == 1 {
            self.actual_length as nat
        } else {
            0
        }
        &&& packets_consistent(self.number_of_packets, self.iso_packet_descriptors)
    }
}

impl WireFormat for RetSubmit {
    type Model = RetSubmitModel;

    open spec fn model(&self) -> RetSubmitModel {
        self@
    }

    open spec fn encoding(m: RetSubmitModel) -> Seq<u8> {
        UsbipHeaderBasic::encoding(m.header) + be32(m.status as u32) + be32(m.actual_length) + be32(
            m.start_frame,
        ) + be32(m.number_of_packets) + be32(m.error_count) + zeros(8) + payload_encoding(
            m.transfer_buffer,
            m.number_of_packets,
            m.iso_packet_descriptors,
        )
    }

    open spec fn decoding(b: Seq<u8>) -> (Result<RetSubmitModel, ProtocolError>, int) {
        if b.len() < 20 {
            (Err(too_short(20, b.len() as int)), 0)
        } else if header_at(b).command != Command::RetSubmit.spec_code() {
            (Err(ProtocolError::InvalidCommand(header_at(b).command)), 20)
        } else if b.len() < 48 {
            (Err(too_short(28, b.len() - 20)), 20)
        } else if be32_at(b, 24) > MAX_TRANSFER_BUFFER_LENGTH {
            (
                Err(
                    ProtocolError::TransferTooLarge {
                        length: be32_at(b, 24),
                        max: MAX_TRANSFER_BUFFER_LENGTH,
                    },
                ),
                28,
            )
        } else {
            let len = if header_at(b).direction == 1 {
                be32_at(b, 24) as int
            } else {
                0
            };
            match payload_decoding(b.skip(48), len, be32_at(b, 32)) {
                (Err(e), n) => (Err(e), 48 + n),
                (Ok((data, descs)), n) => (
                    Ok(
                        RetSubmitModel {
                            header: header_at(b),
                            status: be32_at(b, 20) as i32,
                            actual_length: be32_at(b, 24),
                            start_frame: be32_at(b, 28),
                            number_of_packets: be32_at(b, 32),
                            error_count: be32_at(b, 36),
                            transfer_buffer: data,
                            iso_packet_descriptors: descs,
                        },
                    ),
                    48 + n,
                ),
            }
        }
    }

    open spec fn size(m: RetSubmitModel) -> nat {
        submit_size(m.transfer_buffer, m.iso_packet_descriptors)
    }

    fn encode(&self, buf: &mut Vec<u8>) {
        self.header.encode(buf);
        put_i32(buf, self.status);
        put_u32(buf, self.actual_length);
        put_u32(buf, self.start_frame);
        put_u32(buf, self.number_of_packets);
        put_u32(buf, self.error_count);
        put_zeros(buf, 8);
        put_payload(
            buf,
            &self.transfer_buffer,
            self.number_of_packets,
            &self.iso_packet_descriptors,
        );
        assert(buf@ =~= old(buf)@ + Self::encoding(self@));
    }

    fn decode(buf: &mut &[u8]) -> (r: Result<Self, ProtocolError>) {
        broadcast use lemma_skip_skip;

        let header = match UsbipHeaderBasic::decode(buf) {
            Ok(h) => h,
            Err(e) => {
                return Err(e);
            },
        };
        if header.command != Command::RetSubmit.code() {
            return Err(ProtocolError::InvalidCommand(header.command));
        }
        if buf.len() < RET_SUBMIT_FIELDS_SIZE {
            return Err(
                ProtocolError::BufferTooShort {
                    needed: RET_SUBMIT_FIELDS_SIZE,
                    available: buf.len(),
                },
            );
        }
        let status = get_i32(buf);
        let actual_length = get_u32(buf);
        if actual_length > MAX_TRANSFER_BUFFER_LENGTH {
            return Err(
                ProtocolError::TransferTooLarge {
                    length: actual_length,
                    max: MAX_TRANSFER_BUFFER_LENGTH,
                },
            );
        }
        let start_frame = get_u32(buf);
        let number_of_packets = get_u32(buf);
        let error_count = get_u32(buf);
        advance(buf, 8);
        let len: usize = if header.direction == 1 {
            actual_length as usize
        } else {
            0
        };
        match get_payload(buf, len, number_of_packets) {
            Ok((transfer_buffer, iso_packet_descriptors)) => Ok(
                RetSubmit {
                    header,
                    status,
                    actual_length,
                    start_frame,
                    number_of_packets,
                    error_count,
                    transfer_buffer,
                    iso_packet_descriptors,
                },
            ),
            Err(e) => Err(e),
        }
    }

    fn wire_size(&self) -> usize {
        let data = bytes_as_ref(&self.transfer_buffer);
        URB_HEADER_TOTAL_SIZE + data.len() + self.iso_packet_descriptors.len()
            * ISO_PACKET_DESCRIPTOR_SIZE
    }
}

/// Cancel a submitted request block.
#[derive(Debug, Clone, Copy, PartialEq, Eq, Structural)]
pub struct CmdUnlink {
    pub header: UsbipHeaderBasic,
    /// The sequence number of the request block.
    pub unlink_seqnum: u32,
}

impl WireFormat for CmdUnlink {
    type Model = CmdUnlink;

    open spec fn model(&self) -> CmdUnlink {
        *self
    }

    open spec fn encoding(m: CmdUnlink) -> Seq<u8> {
        UsbipHeaderBasic::encoding(m.header) + be32(m.unlink_seqnum) + zeros(24)
    }

    open spec fn decoding(b: Seq<u8>) -> (Result<CmdUnlink, ProtocolError>, int) {
        if b.len() < 20 {
            (Err(too_short(20, b.len() as int)), 0)
        } else if header_at(b).command != Command::CmdUnlink.spec_code() {
            (Err(ProtocolError::InvalidCommand(header_at(b).command)), 20)
        } else if b.len() < 48 {
            (Err(too_short(28, b.len() - 20)), 20)
        } else {
            (Ok(CmdUnlink { header: header_at(b), unlink_seqnum: be32_at(b, 20) }), 48)
        }
    }

    open spec fn size(m: CmdUnlink) -> nat {
        48
    }

    fn encode(&self, buf: &mut Vec<u8>) {
        self.header.encode(buf);
        put_u32(buf, self.unlink_seqnum);
        put_zeros(buf, 24);
        assert(buf@ =~= old(buf)@ + Self::encoding(*self));
    }

    fn decode(buf: &mut &[u8]) -> (r: Result<Self, ProtocolError>) {
        broadcast use lemma_skip_skip;

        let header = match UsbipHeaderBasic::decode(buf) {
            Ok(h) => h,
            Err(e) => {
                return Err(e);
            },
        };
        if header.command != Command::CmdUnlink.code() {
            return Err(ProtocolError::InvalidCommand(header.command));
        }
        if buf.len() < CMD_UNLINK_FIELDS_SIZE {
            return Err(
                ProtocolError::BufferTooShort {
                    needed: CMD_UNLINK_FIELDS_SIZE,
                    available: buf.len(),
                },
            );
        }
        let unlink_seqnum = get_u32(buf);
        advance(buf, 24);
        Ok(CmdUnlink { header, unlink_seqnum })
    }

    fn wire_size(&self) -> usize {
        URB_HEADER_TOTAL_SIZE
    }
}

/// The result of a cancellation.
#[derive(Debug, Clone, Copy, PartialEq, Eq, Structural)]
pub struct RetUnlink {
    pub header: UsbipHeaderBasic,
    /// -104 if the request block was cancelled, 0 if it had been completed.
    pub status: i32,
}

impl WireFormat for RetUnlink {
    type Model = RetUnlink;

    open spec fn model(&self) -> RetUnlink {
        *self
    }

    open spec fn encoding(m: RetUnlink) -> Seq<u8> {
        UsbipHeaderBasic::encoding(m.header) + be32(m.status as u32) + zeros(24)
    }

    open spec fn decoding(b: Seq<u8>) -> (Result<RetUnlink, ProtocolError>, int) {
        if b.len() < 20 {
            (Err(too_short(20, b.len() as int)), 0)
        } else if header_at(b).command != Command::RetUnlink.spec_code() {
            (Err(ProtocolError::InvalidCommand(header_at(b).command)), 20)
        } else if b.len() < 48 {
            (Err(too_short(28, b.len() - 20)), 20)
        } else {
            (Ok(RetUnlink { header: header_at(b), status: be32_at(b, 20) as i32 }), 48)
        }
    }

    open spec fn size(m: RetUnlink) -> nat {
        48
    }

    fn encode(&self, buf: &mut Vec<u8>) {
        self.header.encode(buf);
        put_i32(buf, self.status);
        put_zeros(buf, 24);
        assert(buf@ =~= old(buf)@ + Self::encoding(*self));
    }

    fn decode(buf: &mut &[u8]) -> (r: Result<Self, ProtocolError>) {
        broadcast use lemma_skip_skip;

        let header = match UsbipHeaderBasic::decode(buf) {
            Ok(h) => h,
            Err(e) => {
                return Err(e);
            },
        };
        if header.command != Command::RetUnlink.code() {
            return Err(ProtocolError::InvalidCommand(header.command));
        }
        if buf.len() < RET_UNLINK_FIELDS_SIZE {
            return Err(
                ProtocolError::BufferTooShort {
                    needed: RET_UNLINK_FIELDS_SIZE,
                    available: buf.len(),
                },
            );
        }
        let status = get_i32(buf);
        advance(buf, 24);
        Ok(RetUnlink { header, status })
    }

    fn wire_size(&self) -> usize {
        URB_HEADER_TOTAL_SIZE
    }
}

/// A message of an attached device.
#[derive(Debug, Clone, PartialEq, Eq)]
pub enum UrbMessage {
    CmdSubmit(CmdSubmit),
    RetSubmit(RetSubmit),
    CmdUnlink(CmdUnlink),
    RetUnlink(RetUnlink),
}

/// A header is read back as it was written, whatever follows.
pub proof fn law_header_round_trip(m: UsbipHeaderBasic, rest: Seq<u8>)
    ensures
        UsbipHeaderBasic::encoding(m).len() == UsbipHeaderBasic::size(m),
        header_at(UsbipHeaderBasic::encoding(m) + rest) == m,
        UsbipHeaderBasic::decoding(UsbipHeaderBasic::encoding(m) + rest) == (
            Ok::<UsbipHeaderBasic, ProtocolError>(m),
            20int,
        ),
{
    let b = UsbipHeaderBasic::encoding(m) + rest;
    assert(b.subrange(0, 4) =~= be32(m.command));
    assert(b.subrange(4, 8) =~= be32(m.seqnum));
    assert(b.subrange(8, 12) =~= be32(m.devid));
    assert(b.subrange(12, 16) =~= be32(m.direction));
    assert(b.subrange(16, 20) =~= be32(m.ep));
    lemma_be32_at(b, 0, m.command);
    lemma_be32_at(b, 4, m.seqnum);
    lemma_be32_at(b, 8, m.devid);
    lemma_be32_at(b, 12, m.direction);
    lemma_be32_at(b, 16, m.ep);
}

/// A packet descriptor is read back as it was, whatever follows.
pub proof fn law_iso_round_trip(m: IsoPacketDescriptor, rest: Seq<u8>)
    ensures
        IsoPacketDescriptor::encoding(m).len() == IsoPacketDescriptor::size(m),
        IsoPacketDescriptor::decoding(IsoPacketDescriptor::encoding(m) + rest) == (
            Ok::<IsoPacketDescriptor, ProtocolError>(m),
            16int,
        ),
{
    let b = IsoPacketDescriptor::encoding(m) + rest;
    assert(b.subrange(0, 16) =~= IsoPacketDescriptor::encoding(m));
    lemma_iso_at(b, 0, m);
}

/// Two's complement gives the integer back.
proof fn lemma_i32_bits(v: i32)
    ensures
        (v as u32) as i32 == v,
{
    assert((v as u32) as i32 == v) by (bit_vector);
}

/// What is read where every part stands at its place.
proof fn lemma_cmd_submit_read(b: Seq<u8>, m: CmdSubmitModel)
    requires
        m.consistent(),
        b.len() >= 48,
        header_at(b) == m.header,
        be32_at(b, 20) == m.transfer_flags,
        be32_at(b, 24) == m.transfer_buffer_length,
        be32_at(b, 28) == m.start_frame,
        be32_at(b, 32) == m.number_of_packets,
        be32_at(b, 36) == m.interval,
        b.subrange(40, 48) == m.setup,
        payload_decoding(
            b.skip(48),
            m.transfer_buffer.len() as int,
            m.number_of_packets,
        ).0 == Ok::<(Seq<u8>, Seq<IsoPacketDescriptor>), ProtocolError>(
            (m.transfer_buffer, m.iso_packet_descriptors),
        ),
    ensures
        CmdSubmit::decoding(b) == (
            Ok::<CmdSubmitModel, ProtocolError>(m),
            48 + payload_decoding(
                b.skip(48),
                m.transfer_buffer.len() as int,
                m.number_of_packets,
            ).1,
        ),
{
}

/// What is read where the bytes of every part stand at their place.
proof fn lemma_cmd_submit_parts(b: Seq<u8>, m: CmdSubmitModel, rest: Seq<u8>)
    requires
        m.consistent(),
        b.len() >= 48,
        b == UsbipHeaderBasic::encoding(m.header) + b.skip(20),
        b.subrange(20, 24) == be32(m.transfer_flags),
        b.subrange(24, 28) == be32(m.transfer_buffer_length),
        b.subrange(28, 32) == be32(m.start_frame),
        b.subrange(32, 36) == be32(m.number_of_packets),
        b.subrange(36, 40) == be32(m.interval),
        b.subrange(40, 48) == m.setup,
        b.skip(48) == payload_encoding(
            m.transfer_buffer,
            m.number_of_packets,
            m.iso_packet_descriptors,
        ) + rest,
    ensures
        CmdSubmit::decoding(b) == (Ok::<CmdSubmitModel, ProtocolError>(m), CmdSubmit::size(m) as int),
{
    assert(header_at(b) == m.header) by {
        law_header_round_trip(m.header, b.skip(20));
    }
    assert(be32_at(b, 20) == m.transfer_flags) by {
        lemma_be32_at(b, 20, m.transfer_flags);
    }
    assert(be32_at(b, 24) == m.transfer_buffer_length) by {
        lemma_be32_at(b, 24, m.transfer_buffer_length);
    }
    assert(be32_at(b, 28) == m.start_frame) by {
        lemma_be32_at(b, 28, m.start_frame);
    }
    assert(be32_at(b, 32) == m.number_of_packets) by {
        lemma_be32_at(b, 32, m.number_of_packets);
    }
    assert(be32_at(b, 36) == m.interval) by {
        lemma_be32_at(b, 36, m.interval);
    }
    lemma_payload_round_trip(
        m.transfer_buffer,
        m.number_of_packets,
        m.iso_packet_descriptors,
        rest,
    );
    lemma_cmd_submit_read(b, m);
}

/// A consistent submission is read back as it was, whatever follows.
#[verifier::rlimit(60)]
pub proof fn law_cmd_submit_round_trip(m: CmdSubmitModel, rest: Seq<u8>)
    requires
        m.consistent(),
    ensures
        CmdSubmit::encoding(m).len() == CmdSubmit::size(m),
        CmdSubmit::decoding(CmdSubmit::encoding(m) + rest) == (
            Ok::<CmdSubmitModel, ProtocolError>(m),
            CmdSubmit::size(m) as int,
        ),
{
    let p = payload_encoding(m.transfer_buffer, m.number_of_packets, m.iso_packet_descriptors);
    let b = CmdSubmit::encoding(m) + rest;
    lemma_submit_layout(
        UsbipHeaderBasic::encoding(m.header),
        be32(m.transfer_flags),
        be32(m.transfer_buffer_length),
        be32(m.start_frame),
        be32(m.number_of_packets),
        be32(m.interval),
        m.setup,
        p,
        rest,
    );
    lemma_payload_round_trip(
        m.transfer_buffer,
        m.number_of_packets,
        m.iso_packet_descriptors,
        rest,
    );
    lemma_cmd_submit_parts(b, m, rest);
}

/// What is read where every part stands at its place.
proof fn lemma_ret_submit_read(b: Seq<u8>, m: RetSubmitModel)
    requires
        m.consistent(),
        b.len() >= 48,
        header_at(b) == m.header,
        be32_at(b, 20) as i32 == m.status,
        be32_at(b, 24) == m.actual_length,
        be32_at(b, 28) == m.start_frame,
        be32_at(b, 32) == m.number_of_packets,
        be32_at(b, 36) == m.error_count,
        payload_decoding(
            b.skip(48),
            m.transfer_buffer.len() as int,
            m.number_of_packets,
        ).0 == Ok::<(Seq<u8>, Seq<IsoPacketDescriptor>), ProtocolError>(
            (m.transfer_buffer, m.iso_packet_descriptors),
        ),
    ensures
        RetSubmit::decoding(b) == (
            Ok::<RetSubmitModel, ProtocolError>(m),
            48 + payload_decoding(
                b.skip(48),
                m.transfer_buffer.len() as int,
                m.number_of_packets,
            ).1,
        ),
{
}

/// What is read where the bytes of every part stand at their place.
proof fn lemma_ret_submit_parts(b: Seq<u8>, m: RetSubmitModel, rest: Seq<u8>)
    requires
        m.consistent(),
        b.len() >= 48,
        b == UsbipHeaderBasic::encoding(m.header) + b.skip(20),
        b.subrange(20, 24) == be32(m.status as u32),
        b.subrange(24, 28) == be32(m.actual_length),
        b.subrange(28, 32) == be32(m.start_frame),
        b.subrange(32, 36) == be32(m.number_of_packets),
        b.subrange(36, 40) == be32(m.error_count),
        b.skip(48) == payload_encoding(
            m.transfer_buffer,
            m.number_of_packets,
            m.iso_packet_descriptors,
        ) + rest,
    ensures
        RetSubmit::decoding(b) == (Ok::<RetSubmitModel, ProtocolError>(m), RetSubmit::size(m) as int),
{
    assert(header_at(b) == m.header) by {
        law_header_round_trip(m.header, b.skip(20));
    }
    assert(be32_at(b, 20) as i32 == m.status) by {
        lemma_be32_at(b, 20, m.status as u32);
        lemma_i32_bits(m.status);
    }
    assert(be32_at(b, 24) == m.actual_length) by {
        lemma_be32_at(b, 24, m.actual_length);
    }
    assert(be32_at(b, 28) == m.start_frame) by {
        lemma_be32_at(b, 28, m.start_frame);
    }
    assert(be32_at(b, 32) == m.number_of_packets) by {
        lemma_be32_at(b, 32, m.number_of_packets);
    }
    assert(be32_at(b, 36) == m.error_count) by {
        lemma_be32_at(b, 36, m.error_count);
    }
    lemma_payload_round_trip(
        m.transfer_buffer,
        m.number_of_packets,
        m.iso_packet_descriptors,
        rest,
    );
    lemma_ret_submit_read(b, m);
}

/// A consistent result is read back as it was, whatever follows.
#[verifier::rlimit(60)]
pub proof fn law_ret_submit_round_trip(m: RetSubmitModel, rest: Seq<u8>)
    requires
        m.consistent(),
    ensures
        RetSubmit::encoding(m).len() == RetSubmit::size(m),
        RetSubmit::decoding(RetSubmit::encoding(m) + rest) == (
            Ok::<RetSubmitModel, ProtocolError>(m),
            RetSubmit::size(m) as int,
        ),
{
    let p = payload_encoding(m.transfer_buffer, m.number_of_packets, m.iso_packet_descriptors);
    let b = RetSubmit::encoding(m) + rest;
    lemma_submit_layout(
        UsbipHeaderBasic::encoding(m.header),
        be32(m.status as u32),
        be32(m.actual_length),
        be32(m.start_frame),
        be32(m.number_of_packets),
        be32(m.error_count),
        zeros(8),
        p,
        rest,
    );
    lemma_payload_round_trip(
        m.transfer_buffer,
        m.number_of_packets,
        m.iso_packet_descriptors,
        rest,
    );
    lemma_ret_submit_parts(b, m, rest);
}

/// Where the parts of a submission or of its result stand.
proof fn lemma_submit_layout(
    h: Seq<u8>,
    a: Seq<u8>,
    b: Seq<u8>,
    c: Seq<u8>,
    d: Seq<u8>,
    e: Seq<u8>,
    s: Seq<u8>,
    p: Seq<u8>,
    rest: Seq<u8>,
)
    requires
        h.len() == 20,
        a.len() == 4,
        b.len() == 4,
        c.len() == 4,
        d.len() == 4,
        e.len() == 4,
        s.len() == 8,
    ensures
        ({
            let all = h + a + b + c + d + e + s + p + rest;
            &&& all == h + all.skip(20)
            &&& all.subrange(20, 24) == a
            &&& all.subrange(24, 28) == b
            &&& all.subrange(28, 32) == c
            &&& all.subrange(32, 36) == d
            &&& all.subrange(36, 40) == e
            &&& all.subrange(40, 48) == s
            &&& all.skip(48) == p + rest
            &&& all.len() == 48 + p.len() + rest.len()
        }),
{
    let all = h + a + b + c + d + e + s + p + rest;
    assert(all =~= h + all.skip(20));
    assert(all.subrange(20, 24) =~= a);
    assert(all.subrange(24, 28) =~= b);
    assert(all.subrange(28, 32) =~= c);
    assert(all.subrange(32, 36) =~= d);
    assert(all.subrange(36, 40) =~= e);
    assert(all.subrange(40, 48) =~= s);
    assert(all.skip(48) =~= p + rest);
}

/// A cancellation is read back as it was, whatever follows.
pub proof fn law_cmd_unlink_round_trip(m: CmdUnlink, rest: Seq<u8>)
    requires
        m.header.command == Command::CmdUnlink.spec_code(),
    ensures
        CmdUnlink::encoding(m).len() == CmdUnlink::size(m),
        CmdUnlink::decoding(CmdUnlink::encoding(m) + rest) == (
            Ok::<CmdUnlink, ProtocolError>(m),
            48int,
        ),
{
    let h = UsbipHeaderBasic::encoding(m.header);
    let f = be32(m.unlink_seqnum) + zeros(24);
    let b = CmdUnlink::encoding(m) + rest;
    law_header_round_trip(m.header, f + rest);
    assert(b =~= h + (f + rest));
    assert(b.subrange(20, 24) =~= be32(m.unlink_seqnum));
    lemma_be32_at(b, 20, m.unlink_seqnum);
}

/// The result of a cancellation is read back as it was, whatever follows.
pub proof fn law_ret_unlink_round_trip(m: RetUnlink, rest: Seq<u8>)
    requires
        m.header.command == Command::RetUnlink.spec_code(),
    ensures
        RetUnlink::encoding(m).len() == RetUnlink::size(m),
        RetUnlink::decoding(RetUnlink::encoding(m) + rest) == (
            Ok::<RetUnlink, ProtocolError>(m),
            48int,
        ),
{
    let h = UsbipHeaderBasic::encoding(m.header);
    let f = be32(m.status as u32) + zeros(24);
    let b = RetUnlink::encoding(m) + rest;
    law_header_round_trip(m.header, f + rest);
    assert(b =~= h + (f + rest));
    assert(b.subrange(20, 24) =~= be32(m.status as u32));
    lemma_be32_at(b, 20, m.status as u32);
    lemma_i32_bits(m.status);
}

/// The header has its fields at their places, four bytes each: the command, the
/// sequence number, the device, the direction and the endpoint.
pub proof fn law_header_layout(h: UsbipHeaderBasic, rest: Seq<u8>)
    ensures
        ({
            let b = UsbipHeaderBasic::encoding(h.model()) + rest;
            &&& b.len() == 20 + rest.len()
            &&& be32_at(b, 0) == h.command
            &&& be32_at(b, 4) == h.seqnum
            &&& be32_at(b, 8) == h.devid
            &&& be32_at(b, 12) == h.direction
            &&& be32_at(b, 16) == h.ep
        }),
{
    law_header_round_trip(h, rest);
    lemma_header_places(UsbipHeaderBasic::encoding(h.model()) + rest, h);
}

proof fn lemma_header_places(b: Seq<u8>, h: UsbipHeaderBasic)
    requires
        header_at(b) == h,
    ensures
        be32_at(b, 0) == h.command,
        be32_at(b, 4) == h.seqnum,
        be32_at(b, 8) == h.devid,
        be32_at(b, 12) == h.direction,
        be32_at(b, 16) == h.ep,
{
}

/// A header that is read has each field from its place.
pub proof fn law_header_read(b: Seq<u8>, h: UsbipHeaderBasic)
    requires
        UsbipHeaderBasic::decoding(b).0 == Ok::<UsbipHeaderBasic, ProtocolError>(h.model()),
    ensures
        b.len() >= 20,
        be32_at(b, 0) == h.command,
        be32_at(b, 4) == h.seqnum,
        be32_at(b, 8) == h.devid,
        be32_at(b, 12) == h.direction,
        be32_at(b, 16) == h.ep,
{
}

/// A packet descriptor has its fields at their places, four bytes each: the
/// offset, the length, the transferred length and the status.
pub proof fn law_iso_layout(d: IsoPacketDescriptor)
    ensures
        ({
            let b = IsoPacketDescriptor::encoding(d.model());
            &&& b.len() == 16
            &&& be32_at(b, 0) == d.offset
            &&& be32_at(b, 4) == d.length
            &&& be32_at(b, 8) == d.actual_length
            &&& be32_at(b, 12) == d.status
        }),
{
    let b = IsoPacketDescriptor::encoding(d.model());
    assert(b.subrange(0, 16) =~= b);
    lemma_iso_at(b, 0, d);
}

/// A packet descriptor that is read has each field from its place, and 16 bytes
/// are always one.
pub proof fn law_iso_read(b: Seq<u8>, d: IsoPacketDescriptor)
    ensures
        IsoPacketDescriptor::decoding(b).0 is Ok <==> b.len() >= 16,
        IsoPacketDescriptor::decoding(b).0 == Ok::<IsoPacketDescriptor, ProtocolError>(d.model())
            ==> {
            &&& be32_at(b, 0) == d.offset
            &&& be32_at(b, 4) == d.length
            &&& be32_at(b, 8) == d.actual_length
            &&& be32_at(b, 12) == d.status
        },
{
}

/// The number that two's complement writes for another.
pub open spec fn unsigned(v: i32) -> int {
    if v >= 0 {
        v as int
    } else {
        v + 0x1_0000_0000
    }
}

proof fn lemma_unsigned(v: i32)
    ensures
        v as u32 == unsigned(v),
{
    if v >= 0 {
        assert(v >= 0 ==> v as u32 == v) by (bit_vector);
    } else {
        assert(v < 0 ==> v as u32 == v + 0x1_0000_0000) by (bit_vector);
    }
}

proof fn lemma_signed(u: u32, v: i32)
    requires
        u as i32 == v,
    ensures
        u == unsigned(v),
{
    assert((u as i32) as u32 == u) by (bit_vector);
    lemma_unsigned(v);
}

/// The bytes of a transfer buffer stand behind the fixed fields, and behind
/// them the packets of an isochronous transfer, 16 bytes each, in order.
pub open spec fn payload_stands(
    b: Seq<u8>,
    data: Seq<u8>,
    packets: u32,
    descs: Seq<IsoPacketDescriptor>,
) -> bool {
    let n = data.len() as int;
    &&& b.len() >= 48 + n
    &&& b.subrange(48, 48 + n) == data
    &&& packets != 0xffff_ffff ==> forall|i: int| #![trigger descs[i]]
        0 <= i < descs.len() ==> {
            &&& 48 + n + 16 * i + 16 <= b.len()
            &&& be32_at(b, 48 + n + 16 * i) == descs[i].offset
            &&& be32_at(b, 52 + n + 16 * i) == descs[i].length
            &&& be32_at(b, 56 + n + 16 * i) == descs[i].actual_length
            &&& be32_at(b, 60 + n + 16 * i) == descs[i].status
        }
}

proof fn lemma_payload_stands(
    b: Seq<u8>,
    data: Seq<u8>,
    packets: u32,
    descs: Seq<IsoPacketDescriptor>,
)
    requires
        b.len() >= 48,
        b.skip(48) == payload_encoding(data, packets, descs),
    ensures
        payload_stands(b, data, packets, descs),
        b.len() == 48 + data.len() + if packets == 0xffff_ffff {
            0
        } else {
            16 * descs.len()
        },
{
    let n = data.len() as int;
    let p = b.skip(48);
    assert(b.subrange(48, 48 + n) =~= p.subrange(0, n));
    assert(p.subrange(0, n) =~= data);
    if packets != NON_ISO_PACKETS_SENTINEL {
        let tail = encodings::<IsoPacketDescriptor>(descs);
        assert forall|i: int| 0 <= i < descs.len() implies IsoPacketDescriptor::encoding(
            #[trigger] descs[i],
        ).len() == 16 by {
            law_iso_layout(descs[i]);
        }
        lemma_encodings_len::<IsoPacketDescriptor>(descs, 16);
        assert forall|i: int| #![trigger descs[i]] 0 <= i < descs.len() implies {
            &&& 48 + n + 16 * i + 16 <= b.len()
            &&& be32_at(b, 48 + n + 16 * i) == descs[i].offset
            &&& be32_at(b, 52 + n + 16 * i) == descs[i].length
            &&& be32_at(b, 56 + n + 16 * i) == descs[i].actual_length
            &&& be32_at(b, 60 + n + 16 * i) == descs[i].status
        } by {
            lemma_encodings_at::<IsoPacketDescriptor>(descs, 16, i);
            let at = 48 + n + 16 * i;
            assert(b.subrange(at, at + 16) =~= p.subrange(at - 48, at - 32));
            assert(p =~= data + tail);
            assert(p.subrange(at - 48, at - 32) =~= tail.subrange(16 * i, 16 * i + 16));
            lemma_iso_at(b, at, descs[i]);
        }
    }
}

/// A submission has its fields at their places behind the header, then the
/// setup packet, then the data and the packets.
pub proof fn law_cmd_submit_layout(c: CmdSubmit)
    ensures
        ({
            let b = CmdSubmit::encoding(c.model());
            let data = bytes_seq(c.transfer_buffer);
            &&& be32_at(b, 0) == c.header.command
            &&& be32_at(b, 4) == c.header.seqnum
            &&& be32_at(b, 8) == c.header.devid
            &&& be32_at(b, 12) == c.header.direction
            &&& be32_at(b, 16) == c.header.ep
            &&& be32_at(b, 20) == c.transfer_flags
            &&& be32_at(b, 24) == c.transfer_buffer_length
            &&& be32_at(b, 28) == c.start_frame
            &&& be32_at(b, 32) == c.number_of_packets
            &&& be32_at(b, 36) == c.interval
            &&& b.subrange(40, 48) == c.setup@
            &&& payload_stands(b, data, c.number_of_packets, c.iso_packet_descriptors@)
            &&& b.len() == 48 + data.len() + if c.number_of_packets == 0xffff_ffff {
                0
            } else {
                16 * c.iso_packet_descriptors@.len()
            }
        }),
{
    let m = c@;
    let b = CmdSubmit::encoding(m);
    let p = payload_encoding(m.transfer_buffer, m.number_of_packets, m.iso_packet_descriptors);
    lemma_submit_layout(
        UsbipHeaderBasic::encoding(m.header),
        be32(m.transfer_flags),
        be32(m.transfer_buffer_length),
        be32(m.start_frame),
        be32(m.number_of_packets),
        be32(m.interval),
        m.setup,
        p,
        Seq::empty(),
    );
    assert(b + Seq::<u8>::empty() =~= b);
    assert(p + Seq::<u8>::empty() =~= p);
    law_header_layout(c.header, b.skip(20));
    lemma_be32_at(b, 20, m.transfer_flags);
    lemma_be32_at(b, 24, m.transfer_buffer_length);
    lemma_be32_at(b, 28, m.start_frame);
    lemma_be32_at(b, 32, m.number_of_packets);
    lemma_be32_at(b, 36, m.interval);
    lemma_payload_stands(b, m.transfer_buffer, m.number_of_packets, m.iso_packet_descriptors);
}

/// A submission that is read has each field from its place. It has data exactly
/// towards the device, and as many packets as it announces.
pub proof fn law_cmd_submit_read(b: Seq<u8>, c: CmdSubmit)
    requires
        CmdSubmit::decoding(b).0 == Ok::<CmdSubmitModel, ProtocolError>(c.model()),
    ensures
        be32_at(b, 0) == 1,
        be32_at(b, 0) == c.header.command,
        be32_at(b, 4) == c.header.seqnum,
        be32_at(b, 8) == c.header.devid,
        be32_at(b, 12) == c.header.direction,
        be32_at(b, 16) == c.header.ep,
        be32_at(b, 20) == c.transfer_flags,
        be32_at(b, 24) == c.transfer_buffer_length,
        be32_at(b, 28) == c.start_frame,
        be32_at(b, 32) == c.number_of_packets,
        be32_at(b, 36) == c.interval,
        b.subrange(40, 48) == c.setup@,
        bytes_seq(c.transfer_buffer).len() == if c.header.direction == 0 {
            c.transfer_buffer_length as nat
        } else {
            0
        },
        c.iso_packet_descriptors@.len() == if c.number_of_packets == 0xffff_ffff {
            0
        } else {
            c.number_of_packets as nat
        },
        c.transfer_buffer_length <= 1_048_576,
        c.number_of_packets == 0xffff_ffff || c.number_of_packets <= 1024,
        payload_stands(
            b,
            bytes_seq(c.transfer_buffer),
            c.number_of_packets,
            c.iso_packet_descriptors@,
        ),
        CmdSubmit::decoding(b).1 == 48 + bytes_seq(c.transfer_buffer).len() + 16
            * c.iso_packet_descriptors@.len(),
{
    let len = if header_at(b).direction == 0 {
        be32_at(b, 24) as int
    } else {
        0
    };
    lemma_payload_read(b, len, be32_at(b, 32));
}

proof fn lemma_payload_read(b: Seq<u8>, len: int, packets: u32)
    requires
        0 <= len,
        b.len() >= 48,
    ensures
        payload_decoding(b.skip(48), len, packets).0 matches Ok((data, descs)) ==> {
            &&& data.len() == len
            &&& descs.len() == if packets == 0xffff_ffff {
                0
            } else {
                packets as nat
            }
            &&& payload_stands(b, data, packets, descs)
            &&& packets == 0xffff_ffff || packets <= 1024
            &&& payload_decoding(b.skip(48), len, packets).1 == len + 16 * descs.len()
        },
{
    let p = b.skip(48);
    match payload_decoding(p, len, packets).0 {
        Ok((data, descs)) => {
            assert(b.subrange(48, 48 + len) =~= p.take(len));
            if packets != NON_ISO_PACKETS_SENTINEL {
                assert forall|i: int| #![trigger descs[i]] 0 <= i < descs.len() implies {
                    &&& 48 + len + 16 * i + 16 <= b.len()
                    &&& be32_at(b, 48 + len + 16 * i) == descs[i].offset
                    &&& be32_at(b, 52 + len + 16 * i) == descs[i].length
                    &&& be32_at(b, 56 + len + 16 * i) == descs[i].actual_length
                    &&& be32_at(b, 60 + len + 16 * i) == descs[i].status
                } by {
                    assert(descs[i] == iso_at(p, len + 16 * i));
                }
            }
        },
        Err(_) => {},
    }
}

/// A result has its fields at their places behind the header, then eight zero
/// bytes, then the data and the packets.
pub proof fn law_ret_submit_layout(c: RetSubmit)
    ensures
        ({
            let b = RetSubmit::encoding(c.model());
            let data = bytes_seq(c.transfer_buffer);
            &&& be32_at(b, 0) == c.header.command
            &&& be32_at(b, 4) == c.header.seqnum
            &&& be32_at(b, 8) == c.header.devid
            &&& be32_at(b, 12) == c.header.direction
            &&& be32_at(b, 16) == c.header.ep
            &&& be32_at(b, 20) == unsigned(c.status)
            &&& be32_at(b, 24) == c.actual_length
            &&& be32_at(b, 28) == c.start_frame
            &&& be32_at(b, 32) == c.number_of_packets
            &&& be32_at(b, 36) == c.error_count
            &&& forall|i: int| 40 <= i < 48 ==> #[trigger] b[i] == 0
            &&& payload_stands(b, data, c.number_of_packets, c.iso_packet_descriptors@)
            &&& b.len() == 48 + data.len() + if c.number_of_packets == 0xffff_ffff {
                0
            } else {
                16 * c.iso_packet_descriptors@.len()
            }
        }),
{
    let m = c@;
    let b = RetSubmit::encoding(m);
    let p = payload_encoding(m.transfer_buffer, m.number_of_packets, m.iso_packet_descriptors);
    lemma_submit_layout(
        UsbipHeaderBasic::encoding(m.header),
        be32(m.status as u32),
        be32(m.actual_length),
        be32(m.start_frame),
        be32(m.number_of_packets),
        be32(m.error_count),
        zeros(8),
        p,
        Seq::empty(),
    );
    assert(b + Seq::<u8>::empty() =~= b);
    assert(p + Seq::<u8>::empty() =~= p);
    law_header_layout(c.header, b.skip(20));
    lemma_be32_at(b, 20, m.status as u32);
    lemma_unsigned(c.status);
    lemma_be32_at(b, 24, m.actual_length);
    lemma_be32_at(b, 28, m.start_frame);
    lemma_be32_at(b, 32, m.number_of_packets);
    lemma_be32_at(b, 36, m.error_count);
    assert forall|i: int| 40 <= i < 48 implies #[trigger] b[i] == 0 by {
        assert(b.subrange(40, 48)[i - 40] == b[i]);
    }
    lemma_payload_stands(b, m.transfer_buffer, m.number_of_packets, m.iso_packet_descriptors);
}

/// A result that is read has each field from its place. It has data exactly
/// from the device, and as many packets as it announces.
pub proof fn law_ret_submit_read(b: Seq<u8>, c: RetSubmit)
    requires
        RetSubmit::decoding(b).0 == Ok::<RetSubmitModel, ProtocolError>(c.model()),
    ensures
        be32_at(b, 0) == 3,
        be32_at(b, 0) == c.header.command,
        be32_at(b, 4) == c.header.seqnum,
        be32_at(b, 8) == c.header.devid,
        be32_at(b, 12) == c.header.direction,
        be32_at(b, 16) == c.header.ep,
        be32_at(b, 20) == unsigned(c.status),
        be32_at(b, 24) == c.actual_length,
        be32_at(b, 28) == c.start_frame,
        be32_at(b, 32) == c.number_of_packets,
        be32_at(b, 36) == c.error_count,
        bytes_seq(c.transfer_buffer).len() == if c.header.direction == 1 {
            c.actual_length as nat
        } else {
            0
        },
        c.iso_packet_descriptors@.len() == if c.number_of_packets == 0xffff_ffff {
            0
        } else {
            c.number_of_packets as nat
        },
        c.actual_length <= 1_048_576,
        c.number_of_packets == 0xffff_ffff || c.number_of_packets <= 1024,
        payload_stands(
            b,
            bytes_seq(c.transfer_buffer),
            c.number_of_packets,
            c.iso_packet_descriptors@,
        ),
        RetSubmit::decoding(b).1 == 48 + bytes_seq(c.transfer_buffer).len() + 16
            * c.iso_packet_descriptors@.len(),
{
    let len = if header_at(b).direction == 1 {
        be32_at(b, 24) as int
    } else {
        0
    };
    lemma_payload_read(b, len, be32_at(b, 32));
    lemma_signed(be32_at(b, 20), c.status);
}

/// A cancellation names the cancelled request right behind the header; what
/// follows is zero.
pub proof fn law_cmd_unlink_layout(c: CmdUnlink)
    ensures
        ({
            let b = CmdUnlink::encoding(c.model());
            &&& b.len() == 48
            &&& be32_at(b, 0) == c.header.command
            &&& be32_at(b, 4) == c.header.seqnum
            &&& be32_at(b, 8) == c.header.devid
            &&& be32_at(b, 12) == c.header.direction
            &&& be32_at(b, 16) == c.header.ep
            &&& be32_at(b, 20) == c.unlink_seqnum
            &&& forall|i: int| 24 <= i < 48 ==> #[trigger] b[i] == 0
        }),
{
    let b = CmdUnlink::encoding(c);
    let f = be32(c.unlink_seqnum) + zeros(24);
    law_header_layout(c.header, f);
    assert(b =~= UsbipHeaderBasic::encoding(c.header) + f);
    assert(b.subrange(20, 24) =~= be32(c.unlink_seqnum));
    lemma_be32_at(b, 20, c.unlink_seqnum);
}

/// A cancellation that is read has each field from its place.
pub proof fn law_cmd_unlink_read(b: Seq<u8>, c: CmdUnlink)
    requires
        CmdUnlink::decoding(b).0 == Ok::<CmdUnlink, ProtocolError>(c.model()),
    ensures
        b.len() >= 48,
        CmdUnlink::decoding(b).1 == 48,
        be32_at(b, 0) == 2,
        be32_at(b, 0) == c.header.command,
        be32_at(b, 4) == c.header.seqnum,
        be32_at(b, 8) == c.header.devid,
        be32_at(b, 12) == c.header.direction,
        be32_at(b, 16) == c.header.ep,
        be32_at(b, 20) == c.unlink_seqnum,
{
}

/// The result of a cancellation has its status right behind the header; what
/// follows is zero.
pub proof fn law_ret_unlink_layout(c: RetUnlink)
    ensures
        ({
            let b = RetUnlink::encoding(c.model());
            &&& b.len() == 48
            &&& be32_at(b, 0) == c.header.command
            &&& be32_at(b, 4) == c.header.seqnum
            &&& be32_at(b, 8) == c.header.devid
            &&& be32_at(b, 12) == c.header.direction
            &&& be32_at(b, 16) == c.header.ep
            &&& be32_at(b, 20) == unsigned(c.status)
            &&& forall|i: int| 24 <= i < 48 ==> #[trigger] b[i] == 0
        }),
{
    let b = RetUnlink::encoding(c);
    let f = be32(c.status as u32) + zeros(24);
    law_header_layout(c.header, f);
    assert(b =~= UsbipHeaderBasic::encoding(c.header) + f);
    assert(b.subrange(20, 24) =~= be32(c.status as u32));
    lemma_be32_at(b, 20, c.status as u32);
    lemma_unsigned(c.status);
}

/// The result of a cancellation that is read has each field from its place.
pub proof fn law_ret_unlink_read(b: Seq<u8>, c: RetUnlink)
    requires
        RetUnlink::decoding(b).0 == Ok::<RetUnlink, ProtocolError>(c.model()),
    ensures
        b.len() >= 48,
        RetUnlink::decoding(b).1 == 48,
        be32_at(b, 0) == 4,
        be32_at(b, 0) == c.header.command,
        be32_at(b, 4) == c.header.seqnum,
        be32_at(b, 8) == c.header.devid,
        be32_at(b, 12) == c.header.direction,
        be32_at(b, 16) == c.header.ep,
        be32_at(b, 20) == unsigned(c.status),
{
    lemma_signed(be32_at(b, 20), c.status);
}

} // verus!
