//! What stands where in the messages that are written and read.

use vstd::prelude::*;

use crate::endian::{be16_at, be32_at};
use crate::protocol::buf::bytes_seq;
use crate::protocol::codec::{
    op_message_encoding, read_op_message, read_urb_message, urb_message_encoding, write_op_message,
    write_urb_message, ReadStep,
};
use crate::protocol::device::{
    decode_device_with_interfaces, device_with_interfaces_encoding, encode_device_with_interfaces,
    law_device_layout, law_device_read, law_device_with_interfaces_read, law_interface_layout,
    law_interfaces_behind_device, UsbDevice, UsbInterface,
};
use crate::protocol::discovery::{
    devices_before, law_rep_devlist_layout, law_rep_devlist_read, law_rep_import_layout,
    law_rep_import_read, law_req_devlist_layout, law_req_import_layout, law_req_import_read,
    OpMessage, OpRepDevlist, OpRepDevlistModel, OpRepImport, OpRepImportModel, OpReqDevlist,
    OpReqImport,
};
use crate::protocol::error::ProtocolError;
use crate::protocol::urb::{
    law_cmd_submit_layout, law_cmd_submit_read, law_cmd_unlink_layout, law_cmd_unlink_read,
    law_header_layout, law_header_read, law_iso_layout, law_iso_read, law_ret_submit_layout,
    law_ret_submit_read, law_ret_unlink_layout, law_ret_unlink_read, unsigned, CmdSubmit,
    CmdSubmitModel, CmdUnlink, IsoPacketDescriptor, RetSubmit, RetSubmitModel, RetUnlink,
    UrbMessage, UsbipHeaderBasic,
};
use crate::protocol::wire::WireFormat;

verus! {

/// What has been appended to a buffer.
pub open spec fn appended(before: Seq<u8>, after: Seq<u8>) -> Seq<u8> {
    after.skip(before.len() as int)
}

/// Writing a message leaves what was there, and appends the message.
pub proof fn law_written_behind<T: WireFormat>(m: T, buf: &mut Vec<u8>)
    requires
        call_ensures(T::encode, (&m, buf), ()),
    ensures
        final(buf)@.len() >= old(buf)@.len(),
        final(buf)@.take(old(buf)@.len() as int) == old(buf)@,
        appended(old(buf)@, final(buf)@) == T::encoding(m.model()),
{
    assert(final(buf)@.take(old(buf)@.len() as int) =~= old(buf)@);
    assert(appended(old(buf)@, final(buf)@) =~= T::encoding(m.model()));
}

/// A header is written as its command, sequence number, device, direction and
/// endpoint, four bytes each.
pub proof fn law_header_written(h: UsbipHeaderBasic, buf: &mut Vec<u8>)
    requires
        call_ensures(UsbipHeaderBasic::encode, (&h, buf), ()),
    ensures
        ({
            let b = appended(old(buf)@, final(buf)@);
            &&& b.len() == 20
            &&& be32_at(b, 0) == h.command
            &&& be32_at(b, 4) == h.seqnum
            &&& be32_at(b, 8) == h.devid
            &&& be32_at(b, 12) == h.direction
            &&& be32_at(b, 16) == h.ep
        }),
{
    law_written_behind(h, buf);
    law_header_layout(h, Seq::empty());
    let b = UsbipHeaderBasic::encoding(h.model());
    assert(b + Seq::<u8>::empty() =~= b);
}

/// A header is taken from the first 20 bytes, where there are as many.
pub proof fn law_header_taken(
    buf: &mut &[u8],
    r: Result<UsbipHeaderBasic, ProtocolError>,
)
    requires
        call_ensures(UsbipHeaderBasic::decode, (buf,), r),
    ensures
        r is Ok <==> old(buf)@.len() >= 20,
        r matches Ok(h) ==> {
            &&& be32_at(old(buf)@, 0) == h.command
            &&& be32_at(old(buf)@, 4) == h.seqnum
            &&& be32_at(old(buf)@, 8) == h.devid
            &&& be32_at(old(buf)@, 12) == h.direction
            &&& be32_at(old(buf)@, 16) == h.ep
            &&& final(buf)@ == old(buf)@.skip(20)
        },
{
    if let Ok(h) = r {
        law_header_read(old(buf)@, h);
    }
}

/// A packet descriptor is written as its offset, its length, its transferred
/// length and its status, four bytes each.
pub proof fn law_iso_written(d: IsoPacketDescriptor, buf: &mut Vec<u8>)
    requires
        call_ensures(IsoPacketDescriptor::encode, (&d, buf), ()),
    ensures
        ({
            let b = appended(old(buf)@, final(buf)@);
            &&& b.len() == 16
            &&& be32_at(b, 0) == d.offset
            &&& be32_at(b, 4) == d.length
            &&& be32_at(b, 8) == d.actual_length
            &&& be32_at(b, 12) == d.status
        }),
{
    law_written_behind(d, buf);
    law_iso_layout(d);
}

/// A packet descriptor is taken from the first 16 bytes, where there are as
/// many.
pub proof fn law_iso_taken(buf: &mut &[u8], r: Result<IsoPacketDescriptor, ProtocolError>)
    requires
        call_ensures(IsoPacketDescriptor::decode, (buf,), r),
    ensures
        r is Ok <==> old(buf)@.len() >= 16,
        r matches Ok(d) ==> {
            &&& be32_at(old(buf)@, 0) == d.offset
            &&& be32_at(old(buf)@, 4) == d.length
            &&& be32_at(old(buf)@, 8) == d.actual_length
            &&& be32_at(old(buf)@, 12) == d.status
            &&& final(buf)@ == old(buf)@.skip(16)
        },
{
    if let Ok(d) = r {
        law_iso_read(old(buf)@, d);
    }
}

/// The packets of an isochronous transfer stand in bytes from a place on, 16
/// bytes each, in order.
pub open spec fn packets_stand(b: Seq<u8>, at: int, descs: Seq<IsoPacketDescriptor>) -> bool {
    forall|i: int|
        #![trigger descs[i]]
        0 <= i < descs.len() ==> {
            &&& at + 16 * i + 16 <= b.len()
            &&& be32_at(b, at + 16 * i) == descs[i].offset
            &&& be32_at(b, at + 4 + 16 * i) == descs[i].length
            &&& be32_at(b, at + 8 + 16 * i) == descs[i].actual_length
            &&& be32_at(b, at + 12 + 16 * i) == descs[i].status
        }
}

/// A submission is written as its header, its fields, the setup packet, the
/// data, and the packets of an isochronous transfer.
pub proof fn law_cmd_submit_written(c: CmdSubmit, buf: &mut Vec<u8>)
    requires
        call_ensures(CmdSubmit::encode, (&c, buf), ()),
    ensures
        ({
            let b = appended(old(buf)@, final(buf)@);
            let n = bytes_seq(c.transfer_buffer).len() as int;
            &&& be32_at(b, 0) == c.header.command
            &&& be32_at(b, 4) == c.header.seqnum
            &&& be32_at(b, 8) == c.header.devid
            &&& be32_at(b, 12) == c.header.direction
            &&& be32_at(b, 16) == c.header.ep
            &&& be32_at(b, 20) == c.transfer_flags
            &&& be32_at(b, 24) == c.transfer_buffer_length
            &&& be32_at(b, 28) == c.start_frame
            &&& be32_at(b, 32) == c.number_of_packets
            &&& be32_at(b, 36) == c.interval
            &&& b.subrange(40, 48) == c.setup@
            &&& b.subrange(48, 48 + n) == bytes_seq(c.transfer_buffer)
            &&& c.number_of_packets != 0xffff_ffff ==> packets_stand(
                b,
                48 + n,
                c.iso_packet_descriptors@,
            ) && b.len() == 48 + n + 16 * c.iso_packet_descriptors@.len()
            &&& c.number_of_packets == 0xffff_ffff ==> b.len() == 48 + n
        }),
{
    law_written_behind(c, buf);
    law_cmd_submit_layout(c);
}

/// A submission is taken from its places. It has data exactly towards the
/// device, and as many packets as it announces.
pub proof fn law_cmd_submit_taken(buf: &mut &[u8], c: CmdSubmit)
    requires
        call_ensures(CmdSubmit::decode, (buf,), Ok(c)),
    ensures
        ({
            let b = old(buf)@;
            let n = bytes_seq(c.transfer_buffer).len() as int;
            &&& c.header.command == 1
            &&& be32_at(b, 0) == c.header.command
            &&& be32_at(b, 4) == c.header.seqnum
            &&& be32_at(b, 8) == c.header.devid
            &&& be32_at(b, 12) == c.header.direction
            &&& be32_at(b, 16) == c.header.ep
            &&& be32_at(b, 20) == c.transfer_flags
            &&& be32_at(b, 24) == c.transfer_buffer_length
            &&& be32_at(b, 28) == c.start_frame
            &&& be32_at(b, 32) == c.number_of_packets
            &&& be32_at(b, 36) == c.interval
            &&& b.subrange(40, 48) == c.setup@
            &&& n == if c.header.direction == 0 {
                c.transfer_buffer_length as int
            } else {
                0
            }
            &&& b.subrange(48, 48 + n) == bytes_seq(c.transfer_buffer)
            &&& c.iso_packet_descriptors@.len() == if c.number_of_packets == 0xffff_ffff {
                0
            } else {
                c.number_of_packets as nat
            }
            &&& packets_stand(b, 48 + n, c.iso_packet_descriptors@)
            &&& c.transfer_buffer_length <= 1_048_576
            &&& c.iso_packet_descriptors@.len() <= 1024
            &&& final(buf)@ == b.skip(48 + n + 16 * (c.iso_packet_descriptors@.len() as int))
        }),
{
    law_cmd_submit_read(old(buf)@, c);
}

/// A result is written as its header, its fields, eight zero bytes, the data,
/// and the packets of an isochronous transfer.
pub proof fn law_ret_submit_written(c: RetSubmit, buf: &mut Vec<u8>)
    requires
        call_ensures(RetSubmit::encode, (&c, buf), ()),
    ensures
        ({
            let b = appended(old(buf)@, final(buf)@);
            let n = bytes_seq(c.transfer_buffer).len() as int;
            &&& be32_at(b, 0) == c.header.command
            &&& be32_at(b, 4) == c.header.seqnum
            &&& be32_at(b, 8) == c.header.devid
            &&& be32_at(b, 12) == c.header.direction
            &&& be32_at(b, 16) == c.header.ep
            &&& be32_at(b, 20) == unsigned(c.status)
            &&& be32_at(b, 24) == c.actual_length
            &&& be32_at(b, 28) == c.start_frame
            &&& be32_at(b, 32) == c.number_of_packets
            &&& be32_at(b, 36) == c.error_count
            &&& forall|i: int| 40 <= i < 48 ==> #[trigger] b[i] == 0
            &&& b.subrange(48, 48 + n) == bytes_seq(c.transfer_buffer)
            &&& c.number_of_packets != 0xffff_ffff ==> packets_stand(
                b,
                48 + n,
                c.iso_packet_descriptors@,
            ) && b.len() == 48 + n + 16 * c.iso_packet_descriptors@.len()
            &&& c.number_of_packets == 0xffff_ffff ==> b.len() == 48 + n
        }),
{
    law_written_behind(c, buf);
    law_ret_submit_layout(c);
}

/// A result is taken from its places. It has data exactly from the device, and
/// as many packets as it announces.
pub proof fn law_ret_submit_taken(buf: &mut &[u8], c: RetSubmit)
    requires
        call_ensures(RetSubmit::decode, (buf,), Ok(c)),
    ensures
        ({
            let b = old(buf)@;
            let n = bytes_seq(c.transfer_buffer).len() as int;
            &&& c.header.command == 3
            &&& be32_at(b, 0) == c.header.command
            &&& be32_at(b, 4) == c.header.seqnum
            &&& be32_at(b, 8) == c.header.devid
            &&& be32_at(b, 12) == c.header.direction
            &&& be32_at(b, 16) == c.header.ep
            &&& be32_at(b, 20) == unsigned(c.status)
            &&& be32_at(b, 24) == c.actual_length
            &&& be32_at(b, 28) == c.start_frame
            &&& be32_at(b, 32) == c.number_of_packets
            &&& be32_at(b, 36) == c.error_count
            &&& n == if c.header.direction == 1 {
                c.actual_length as int
            } else {
                0
            }
            &&& b.subrange(48, 48 + n) == bytes_seq(c.transfer_buffer)
            &&& c.iso_packet_descriptors@.len() == if c.number_of_packets == 0xffff_ffff {
                0
            } else {
                c.number_of_packets as nat
            }
            &&& packets_stand(b, 48 + n, c.iso_packet_descriptors@)
            &&& c.actual_length <= 1_048_576
            &&& c.iso_packet_descriptors@.len() <= 1024
            &&& final(buf)@ == b.skip(48 + n + 16 * (c.iso_packet_descriptors@.len() as int))
        }),
{
    law_ret_submit_read(old(buf)@, c);
}

/// A cancellation is written as its header and the sequence number of the
/// cancelled request; the rest is zero.
pub proof fn law_cmd_unlink_written(c: CmdUnlink, buf: &mut Vec<u8>)
    requires
        call_ensures(CmdUnlink::encode, (&c, buf), ()),
    ensures
        ({
            let b = appended(old(buf)@, final(buf)@);
            &&& b.len() == 48
            &&& be32_at(b, 0) == c.header.command
            &&& be32_at(b, 4) == c.header.seqnum
            &&& be32_at(b, 8) == c.header.devid
            &&& be32_at(b, 12) == c.header.direction
            &&& be32_at(b, 16) == c.header.ep
            &&& be32_at(b, 20) == c.unlink_seqnum
            &&& forall|i: int| 24 <= i < 48 ==> #[trigger] b[i] == 0
        }),
{
    law_written_behind(c, buf);
    law_cmd_unlink_layout(c);
}

/// A cancellation is taken from its places.
pub proof fn law_cmd_unlink_taken(buf: &mut &[u8], c: CmdUnlink)
    requires
        call_ensures(CmdUnlink::decode, (buf,), Ok(c)),
    ensures
        c.header.command == 2,
        be32_at(old(buf)@, 0) == c.header.command,
        be32_at(old(buf)@, 4) == c.header.seqnum,
        be32_at(old(buf)@, 8) == c.header.devid,
        be32_at(old(buf)@, 12) == c.header.direction,
        be32_at(old(buf)@, 16) == c.header.ep,
        be32_at(old(buf)@, 20) == c.unlink_seqnum,
        final(buf)@ == old(buf)@.skip(48),
{
    law_cmd_unlink_read(old(buf)@, c);
}

/// The result of a cancellation is written as its header and its status; the
/// rest is zero.
pub proof fn law_ret_unlink_written(c: RetUnlink, buf: &mut Vec<u8>)
    requires
        call_ensures(RetUnlink::encode, (&c, buf), ()),
    ensures
        ({
            let b = appended(old(buf)@, final(buf)@);
            &&& b.len() == 48
            &&& be32_at(b, 0) == c.header.command
            &&& be32_at(b, 4) == c.header.seqnum
            &&& be32_at(b, 8) == c.header.devid
            &&& be32_at(b, 12) == c.header.direction
            &&& be32_at(b, 16) == c.header.ep
            &&& be32_at(b, 20) == unsigned(c.status)
            &&& forall|i: int| 24 <= i < 48 ==> #[trigger] b[i] == 0
        }),
{
    law_written_behind(c, buf);
    law_ret_unlink_layout(c);
}

/// The result of a cancellation is taken from its places.
pub proof fn law_ret_unlink_taken(buf: &mut &[u8], c: RetUnlink)
    requires
        call_ensures(RetUnlink::decode, (buf,), Ok(c)),
    ensures
        c.header.command == 4,
        be32_at(old(buf)@, 0) == c.header.command,
        be32_at(old(buf)@, 4) == c.header.seqnum,
        be32_at(old(buf)@, 8) == c.header.devid,
        be32_at(old(buf)@, 12) == c.header.direction,
        be32_at(old(buf)@, 16) == c.header.ep,
        be32_at(old(buf)@, 20) == unsigned(c.status),
        final(buf)@ == old(buf)@.skip(48),
{
    law_ret_unlink_read(old(buf)@, c);
}

/// An interface is written as its class, subclass, protocol and a byte more.
pub proof fn law_interface_written(f: UsbInterface, buf: &mut Vec<u8>)
    requires
        call_ensures(UsbInterface::encode, (&f, buf), ()),
    ensures
        appended(old(buf)@, final(buf)@) == seq![
            f.interface_class,
            f.interface_subclass,
            f.interface_protocol,
            f.padding,
        ],
{
    law_written_behind(f, buf);
    law_interface_layout(f, Seq::empty());
    assert(appended(old(buf)@, final(buf)@) =~= seq![
        f.interface_class,
        f.interface_subclass,
        f.interface_protocol,
        f.padding,
    ]);
}

/// An interface is taken from the first four bytes, where there are as many.
pub proof fn law_interface_taken(buf: &mut &[u8], r: Result<UsbInterface, ProtocolError>)
    requires
        call_ensures(UsbInterface::decode, (buf,), r),
    ensures
        r is Ok <==> old(buf)@.len() >= 4,
        r matches Ok(f) ==> {
            &&& old(buf)@[0] == f.interface_class
            &&& old(buf)@[1] == f.interface_subclass
            &&& old(buf)@[2] == f.interface_protocol
            &&& old(buf)@[3] == f.padding
            &&& final(buf)@ == old(buf)@.skip(4)
        },
{
    if let Ok(f) = r {
        law_interface_layout(f, old(buf)@);
    }
}

/// A device is written in 312 bytes, each field at its place.
pub proof fn law_device_written(d: UsbDevice, buf: &mut Vec<u8>)
    requires
        call_ensures(UsbDevice::encode, (&d, buf), ()),
    ensures
        ({
            let b = appended(old(buf)@, final(buf)@);
            &&& b.len() == 312
            &&& b.subrange(0, 256) == d.path@
            &&& b.subrange(256, 288) == d.busid@
            &&& be32_at(b, 288) == d.busnum
            &&& be32_at(b, 292) == d.devnum
            &&& be32_at(b, 296) == d.speed
            &&& be16_at(b, 300) == d.id_vendor
            &&& be16_at(b, 302) == d.id_product
            &&& be16_at(b, 304) == d.bcd_device
            &&& b[306] == d.device_class
            &&& b[307] == d.device_subclass
            &&& b[308] == d.device_protocol
            &&& b[309] == d.configuration_value
            &&& b[310] == d.num_configurations
            &&& b[311] == d.num_interfaces
        }),
{
    law_written_behind(d, buf);
    law_device_layout(d);
}

/// A device is taken from the first 312 bytes, where there are as many, each
/// field from its place, and without interfaces.
pub proof fn law_device_taken(buf: &mut &[u8], r: Result<UsbDevice, ProtocolError>)
    requires
        call_ensures(UsbDevice::decode, (buf,), r),
    ensures
        r is Ok <==> old(buf)@.len() >= 312,
        r matches Ok(d) ==> {
            let b = old(buf)@;
            &&& b.subrange(0, 256) == d.path@
            &&& b.subrange(256, 288) == d.busid@
            &&& be32_at(b, 288) == d.busnum
            &&& be32_at(b, 292) == d.devnum
            &&& be32_at(b, 296) == d.speed
            &&& be16_at(b, 300) == d.id_vendor
            &&& be16_at(b, 302) == d.id_product
            &&& be16_at(b, 304) == d.bcd_device
            &&& b[306] == d.device_class
            &&& b[307] == d.device_subclass
            &&& b[308] == d.device_protocol
            &&& b[309] == d.configuration_value
            &&& b[310] == d.num_configurations
            &&& b[311] == d.num_interfaces
            &&& d.interfaces@.len() == 0
            &&& final(buf)@ == b.skip(312)
        },
{
    if let Ok(d) = r {
        law_device_read(old(buf)@, d);
    } else {
        if old(buf)@.len() >= 312 {
            law_device_read(old(buf)@, arbitrary());
        }
    }
}

/// A device with its interfaces is written as the device, and four bytes for
/// each interface, in order.
pub proof fn law_device_with_interfaces_written(d: UsbDevice, buf: &mut Vec<u8>, i: int)
    requires
        call_ensures(encode_device_with_interfaces, (&d, buf), ()),
        0 <= i < d.interfaces@.len(),
    ensures
        ({
            let b = appended(old(buf)@, final(buf)@);
            &&& b.len() == 312 + 4 * d.interfaces@.len()
            &&& be32_at(b, 288) == d.busnum
            &&& be32_at(b, 292) == d.devnum
            &&& be16_at(b, 300) == d.id_vendor
            &&& be16_at(b, 302) == d.id_product
            &&& b[311] == d.num_interfaces
            &&& b[312 + 4 * i] == d.interfaces@[i].interface_class
            &&& b[313 + 4 * i] == d.interfaces@[i].interface_subclass
            &&& b[314 + 4 * i] == d.interfaces@[i].interface_protocol
            &&& b[315 + 4 * i] == d.interfaces@[i].padding
        }),
{
    law_interfaces_behind_device(d, i);
    assert(appended(old(buf)@, final(buf)@)
        =~= device_with_interfaces_encoding(d@));
}

/// A device is taken with as many interfaces as it announces, each from its
/// place.
pub proof fn law_device_with_interfaces_taken(buf: &mut &[u8], d: UsbDevice)
    requires
        call_ensures(decode_device_with_interfaces, (buf,), Ok(d)),
    ensures
        ({
            let b = old(buf)@;
            &&& d.interfaces@.len() == b[311]
            &&& b.subrange(256, 288) == d.busid@
            &&& be32_at(b, 288) == d.busnum
            &&& be32_at(b, 292) == d.devnum
            &&& be32_at(b, 296) == d.speed
            &&& be16_at(b, 300) == d.id_vendor
            &&& be16_at(b, 302) == d.id_product
            &&& final(buf)@ == b.skip(312 + 4 * (d.interfaces@.len() as int))
            &&& forall|i: int|
                #![trigger d.interfaces@[i]]
                0 <= i < d.interfaces@.len() ==> {
                    &&& b[312 + 4 * i] == d.interfaces@[i].interface_class
                    &&& b[313 + 4 * i] == d.interfaces@[i].interface_subclass
                    &&& b[314 + 4 * i] == d.interfaces@[i].interface_protocol
                    &&& b[315 + 4 * i] == d.interfaces@[i].padding
                }
        }),
{
    law_device_with_interfaces_read(old(buf)@, d);
}

/// The request for the list is written as the version, its code and no status.
pub proof fn law_req_devlist_written(m: OpReqDevlist, buf: &mut Vec<u8>)
    requires
        call_ensures(OpReqDevlist::encode, (&m, buf), ()),
    ensures
        ({
            let b = appended(old(buf)@, final(buf)@);
            &&& b.len() == 8
            &&& be16_at(b, 0) == 0x0111
            &&& be16_at(b, 2) == 0x8005
            &&& be32_at(b, 4) == 0
        }),
{
    law_written_behind(m, buf);
    law_req_devlist_layout(m);
}

/// The request to import a device is written as the version, its code, no
/// status, and the bus ID.
pub proof fn law_req_import_written(m: OpReqImport, buf: &mut Vec<u8>)
    requires
        call_ensures(OpReqImport::encode, (&m, buf), ()),
    ensures
        ({
            let b = appended(old(buf)@, final(buf)@);
            &&& b.len() == 40
            &&& be16_at(b, 0) == 0x0111
            &&& be16_at(b, 2) == 0x8003
            &&& be32_at(b, 4) == 0
            &&& b.subrange(8, 40) == m.busid@
        }),
{
    law_written_behind(m, buf);
    law_req_import_layout(m);
}

/// The request to import a device is taken with its bus ID from its place.
pub proof fn law_req_import_taken(buf: &mut &[u8], m: OpReqImport)
    requires
        call_ensures(OpReqImport::decode, (buf,), Ok(m)),
    ensures
        be16_at(old(buf)@, 0) == 0x0111,
        be16_at(old(buf)@, 2) == 0x8003,
        old(buf)@.subrange(8, 40) == m.busid@,
        final(buf)@ == old(buf)@.skip(40),
{
    law_req_import_read(old(buf)@, m);
}

/// The answer to an import is written as the version, its code and the status,
/// and the device where there is one.
pub proof fn law_rep_import_written(m: OpRepImport, buf: &mut Vec<u8>)
    requires
        call_ensures(OpRepImport::encode, (&m, buf), ()),
    ensures
        ({
            let b = appended(old(buf)@, final(buf)@);
            &&& be16_at(b, 0) == 0x0111
            &&& be16_at(b, 2) == 0x0003
            &&& be32_at(b, 4) == m.status
            &&& m.device is None ==> b.len() == 8
            &&& m.device matches Some(d) ==> {
                &&& b.len() == 320
                &&& b.skip(8).subrange(0, 256) == d.path@
                &&& b.skip(8).subrange(256, 288) == d.busid@
                &&& be32_at(b.skip(8), 288) == d.busnum
                &&& be32_at(b.skip(8), 292) == d.devnum
                &&& be32_at(b.skip(8), 296) == d.speed
                &&& be16_at(b.skip(8), 300) == d.id_vendor
                &&& be16_at(b.skip(8), 302) == d.id_product
                &&& be16_at(b.skip(8), 304) == d.bcd_device
            }
        }),
{
    law_written_behind(m, buf);
    law_rep_import_layout(m);
}

/// The answer to an import is taken with its status from its place, and with a
/// device exactly where that is zero.
pub proof fn law_rep_import_taken(buf: &mut &[u8], m: OpRepImport)
    requires
        call_ensures(OpRepImport::decode, (buf,), Ok(m)),
    ensures
        ({
            let b = old(buf)@;
            &&& be16_at(b, 0) == 0x0111
            &&& be16_at(b, 2) == 0x0003
            &&& be32_at(b, 4) == m.status
            &&& m.device is Some <==> m.status == 0
            &&& m.device matches Some(d) ==> {
                &&& b.skip(8).subrange(0, 256) == d.path@
                &&& b.skip(8).subrange(256, 288) == d.busid@
                &&& be32_at(b.skip(8), 288) == d.busnum
                &&& be32_at(b.skip(8), 292) == d.devnum
                &&& be32_at(b.skip(8), 296) == d.speed
                &&& be16_at(b.skip(8), 300) == d.id_vendor
                &&& be16_at(b.skip(8), 302) == d.id_product
                &&& be16_at(b.skip(8), 304) == d.bcd_device
            }
            &&& final(buf)@ == b.skip(
                if m.status == 0 {
                    320
                } else {
                    8
                },
            )
        }),
{
    law_rep_import_read(old(buf)@, m);
}

/// The list is written as the version, its code, the status, the number of
/// devices, and the devices with their interfaces, one behind the other.
pub proof fn law_rep_devlist_written(m: OpRepDevlist, buf: &mut Vec<u8>)
    requires
        call_ensures(OpRepDevlist::encode, (&m, buf), ()),
        m.devices@.len() <= u32::MAX,
    ensures
        ({
            let b = appended(old(buf)@, final(buf)@);
            &&& be16_at(b, 0) == 0x0111
            &&& be16_at(b, 2) == 0x0005
            &&& be32_at(b, 4) == m.status
            &&& be32_at(b, 8) == m.devices@.len()
            &&& forall|i: int|
                #![trigger m.devices@[i]]
                0 <= i < m.devices@.len() ==> b.skip(devices_before(m.devices@, i)).take(
                    312 + 4 * (m.devices@[i].interfaces@.len() as int),
                ) == device_with_interfaces_encoding(m.devices@[i]@)
        }),
{
    law_written_behind(m, buf);
    law_rep_devlist_layout(m);
}

/// The list is taken with its status and number from their places, and the
/// devices each from where the one before it ends.
pub proof fn law_rep_devlist_taken(buf: &mut &[u8], m: OpRepDevlist)
    requires
        call_ensures(OpRepDevlist::decode, (buf,), Ok(m)),
    ensures
        ({
            let b = old(buf)@;
            &&& be16_at(b, 0) == 0x0111
            &&& be16_at(b, 2) == 0x0005
            &&& be32_at(b, 4) == m.status
            &&& be32_at(b, 8) == m.devices@.len()
            &&& m.devices@.len() <= 256
            &&& forall|i: int|
                #![trigger m.devices@[i]]
                0 <= i < m.devices@.len() ==> {
                    let at = b.skip(devices_before(m.devices@, i));
                    &&& at.subrange(256, 288) == m.devices@[i].busid@
                    &&& be32_at(at, 288) == m.devices@[i].busnum
                    &&& be32_at(at, 292) == m.devices@[i].devnum
                    &&& be32_at(at, 296) == m.devices@[i].speed
                    &&& be16_at(at, 300) == m.devices@[i].id_vendor
                    &&& be16_at(at, 302) == m.devices@[i].id_product
                    &&& at[311] == m.devices@[i].interfaces@.len()
                }
            &&& final(buf)@ == b.skip(devices_before(m.devices@, m.devices@.len() as int))
        }),
{
    let b = old(buf)@;
    law_rep_devlist_read(b, m);
    assert forall|i: int| #![trigger m.devices@[i]] 0 <= i < m.devices@.len() implies {
        let at = b.skip(devices_before(m.devices@, i));
        &&& at.subrange(256, 288) == m.devices@[i].busid@
        &&& be32_at(at, 288) == m.devices@[i].busnum
        &&& be32_at(at, 292) == m.devices@[i].devnum
        &&& be32_at(at, 296) == m.devices@[i].speed
        &&& be16_at(at, 300) == m.devices@[i].id_vendor
        &&& be16_at(at, 302) == m.devices@[i].id_product
        &&& at[311] == m.devices@[i].interfaces@.len()
    } by {
        law_device_with_interfaces_read(b.skip(devices_before(m.devices@, i)), m.devices@[i]);
    }
}

/// A message of an attached device is written as what it is.
pub proof fn law_urb_message_written(m: UrbMessage, buf: &mut Vec<u8>)
    requires
        call_ensures(write_urb_message, (buf, &m), ()),
    ensures
        final(buf)@.take(old(buf)@.len() as int) == old(buf)@,
        appended(old(buf)@, final(buf)@) == match m {
            UrbMessage::CmdSubmit(c) => CmdSubmit::encoding(c.model()),
            UrbMessage::RetSubmit(c) => RetSubmit::encoding(c.model()),
            UrbMessage::CmdUnlink(c) => CmdUnlink::encoding(c.model()),
            UrbMessage::RetUnlink(c) => RetUnlink::encoding(c.model()),
        },
{
    assert(final(buf)@.take(old(buf)@.len() as int) =~= old(buf)@);
    assert(appended(old(buf)@, final(buf)@) =~= urb_message_encoding(m@));
}

/// A message of an attached device that is complete is what its command says.
pub proof fn law_urb_message_taken(b: &[u8], m: UrbMessage)
    requires
        call_ensures(read_urb_message, (b,), ReadStep::Message(m)),
    ensures
        match m {
            UrbMessage::CmdSubmit(c) => be32_at(b@, 0) == 1 && CmdSubmit::decoding(b@).0 == Ok::<
                CmdSubmitModel,
                ProtocolError,
            >(c.model()),
            UrbMessage::CmdUnlink(c) => be32_at(b@, 0) == 2 && CmdUnlink::decoding(b@).0 == Ok::<
                CmdUnlink,
                ProtocolError,
            >(c.model()),
            UrbMessage::RetSubmit(c) => be32_at(b@, 0) == 3 && RetSubmit::decoding(b@).0 == Ok::<
                RetSubmitModel,
                ProtocolError,
            >(c.model()),
            UrbMessage::RetUnlink(c) => be32_at(b@, 0) == 4 && RetUnlink::decoding(b@).0 == Ok::<
                RetUnlink,
                ProtocolError,
            >(c.model()),
        },
{
}

/// A reader of messages asks for the rest of the header first, and goes on by
/// the command: a submission towards the device is followed by its data.
pub proof fn law_urb_reader_asks(b: &[u8], r: ReadStep<UrbMessage>)
    requires
        call_ensures(read_urb_message, (b,), r),
    ensures
        b@.len() < 20 ==> r == ReadStep::<UrbMessage>::NeedMore((20 - b@.len()) as usize),
        20 <= b@.len() < 48 && 1 <= be32_at(b@, 0) <= 4 ==> r == ReadStep::<UrbMessage>::NeedMore(
            (48 - b@.len()) as usize,
        ),
        b@.len() >= 20 && !(1 <= be32_at(b@, 0) <= 4) ==> r == ReadStep::<UrbMessage>::Failed(
            ProtocolError::InvalidCommand(be32_at(b@, 0)),
        ),
        b@.len() == 48 && be32_at(b@, 0) == 1 && be32_at(b@, 12) == 0 && 0 < be32_at(b@, 24)
            <= 1_048_576 ==> r == ReadStep::<UrbMessage>::NeedMore(be32_at(b@, 24) as usize),
        b@.len() == 48 && be32_at(b@, 0) == 3 && be32_at(b@, 12) == 1 && 0 < be32_at(b@, 24)
            <= 1_048_576 ==> r == ReadStep::<UrbMessage>::NeedMore(be32_at(b@, 24) as usize),
{
    assert(b@.skip(48).len() == b@.len() - 48 || b@.len() < 48);
}

/// A discovery message is written as what it is.
pub proof fn law_op_message_written(m: OpMessage, buf: &mut Vec<u8>)
    requires
        call_ensures(write_op_message, (buf, &m), ()),
    ensures
        final(buf)@.take(old(buf)@.len() as int) == old(buf)@,
        appended(old(buf)@, final(buf)@) == match m {
            OpMessage::ReqDevlist(c) => OpReqDevlist::encoding(c.model()),
            OpMessage::RepDevlist(c) => OpRepDevlist::encoding(c.model()),
            OpMessage::ReqImport(c) => OpReqImport::encoding(c.model()),
            OpMessage::RepImport(c) => OpRepImport::encoding((*c).model()),
        },
{
    assert(final(buf)@.take(old(buf)@.len() as int) =~= old(buf)@);
    assert(appended(old(buf)@, final(buf)@) =~= op_message_encoding(m@));
}

/// A discovery message that is complete is what its code says.
pub proof fn law_op_message_taken(b: &[u8], m: OpMessage)
    requires
        call_ensures(read_op_message, (b,), ReadStep::Message(m)),
    ensures
        be16_at(b@, 0) == 0x0111,
        match m {
            OpMessage::ReqDevlist(_) => be16_at(b@, 2) == 0x8005,
            OpMessage::RepDevlist(c) => be16_at(b@, 2) == 0x0005 && OpRepDevlist::decoding(b@).0
                == Ok::<OpRepDevlistModel, ProtocolError>(c.model()),
            OpMessage::ReqImport(c) => be16_at(b@, 2) == 0x8003 && b@.subrange(8, 40)
                == c.busid@,
            OpMessage::RepImport(c) => be16_at(b@, 2) == 0x0003 && OpRepImport::decoding(b@).0
                == Ok::<OpRepImportModel, ProtocolError>((*c).model()),
        },
{
}

/// The size that is told of a header, a packet descriptor, a request to unlink
/// and its result, an interface, a device and the requests of discovery is the
/// number of bytes that they are written as.
pub proof fn law_sizes_told(
    header: UsbipHeaderBasic,
    packet: IsoPacketDescriptor,
    unlink: CmdUnlink,
    unlinked: RetUnlink,
    interface: UsbInterface,
    device: UsbDevice,
    asks: OpReqDevlist,
    imports: OpReqImport,
)
    ensures
        forall|n: usize| #[trigger]
            call_ensures(UsbipHeaderBasic::wire_size, (&header,), n) ==> n == 20 && n
                == UsbipHeaderBasic::encoding(header.model()).len(),
        forall|n: usize| #[trigger]
            call_ensures(IsoPacketDescriptor::wire_size, (&packet,), n) ==> n == 16 && n
                == IsoPacketDescriptor::encoding(packet.model()).len(),
        forall|n: usize| #[trigger]
            call_ensures(CmdUnlink::wire_size, (&unlink,), n) ==> n == 48 && n
                == CmdUnlink::encoding(unlink.model()).len(),
        forall|n: usize| #[trigger]
            call_ensures(RetUnlink::wire_size, (&unlinked,), n) ==> n == 48 && n
                == RetUnlink::encoding(unlinked.model()).len(),
        forall|n: usize| #[trigger]
            call_ensures(UsbInterface::wire_size, (&interface,), n) ==> n == 4 && n
                == UsbInterface::encoding(interface.model()).len(),
        forall|n: usize| #[trigger]
            call_ensures(UsbDevice::wire_size, (&device,), n) ==> n == 312 && n
                == UsbDevice::encoding(device.model()).len(),
        forall|n: usize| #[trigger]
            call_ensures(OpReqDevlist::wire_size, (&asks,), n) ==> n == 8 && n
                == OpReqDevlist::encoding(asks.model()).len(),
        forall|n: usize| #[trigger]
            call_ensures(OpReqImport::wire_size, (&imports,), n) ==> n == 40 && n
                == OpReqImport::encoding(imports.model()).len(),
{
}

/// The size that is told of a submission is 48 bytes, those of its data, and
/// sixteen for every packet.
pub proof fn law_submission_size_told(c: CmdSubmit, r: RetSubmit, m: usize, n: usize)
    requires
        call_ensures(CmdSubmit::wire_size, (&c,), m),
        call_ensures(RetSubmit::wire_size, (&r,), n),
    ensures
        m == 48 + bytes_seq(c.transfer_buffer).len() + 16 * c.iso_packet_descriptors@.len(),
        n == 48 + bytes_seq(r.transfer_buffer).len() + 16 * r.iso_packet_descriptors@.len(),
{
}

} // verus!
