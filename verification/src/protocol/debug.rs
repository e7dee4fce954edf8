//! Messages as text, for error messages.

use bytes::Bytes;
use vstd::prelude::*;
use vstd::string::*;

use crate::protocol::buf::bytes_seq;
use crate::protocol::codec::UrbMessageModel;
use crate::protocol::urb::{
    CmdSubmitModel, IsoPacketDescriptor, RetSubmitModel, UrbMessage, UsbipHeaderBasic,
};
use crate::text::{
    decimal, decimal_string, hex_digits, signed_decimal, signed_decimal_string,
};

verus! {

/// A byte of a byte string as it is written between the quotes.
pub open spec fn escaped(b: u8) -> Seq<char> {
    if b == 10 {
        "\\n"@
    } else if b == 13 {
        "\\r"@
    } else if b == 9 {
        "\\t"@
    } else if b == 92 || b == 34 {
        "\\"@ + seq![b as char]
    } else if b == 0 {
        "\\0"@
    } else if 0x20 <= b < 0x7f {
        seq![b as char]
    } else {
        "\\x"@ + hex_digits(b as nat, 2)
    }
}

/// The bytes of a byte string as they are written between the quotes.
pub open spec fn escaped_all(b: Seq<u8>) -> Seq<char>
    decreases b.len(),
{
    if b.len() == 0 {
        Seq::empty()
    } else {
        escaped_all(b.drop_last()) + escaped(b.last())
    }
}

/// Bytes as a byte string.
pub open spec fn bytes_text(b: Seq<u8>) -> Seq<char> {
    "b\""@ + escaped_all(b) + "\""@
}

/// `<Bytes as Debug>::fmt`: the bytes held, as a byte string in which what is
/// not printable ASCII is escaped.
#[verifier::external_body]
fn bytes_debug(b: &Bytes) -> (s: String)
    ensures
        s@ == bytes_text(bytes_seq(*b)),
{
    format!("{:?}", b)
}

/// A field of a struct.
pub open spec fn field(name: Seq<char>, n: nat) -> Seq<char> {
    name + decimal(n)
}

/// A header as text.
pub open spec fn header_text(h: UsbipHeaderBasic) -> Seq<char> {
    field("UsbipHeaderBasic { command: "@, h.command as nat) + field(
        ", seqnum: "@,
        h.seqnum as nat,
    ) + field(", devid: "@, h.devid as nat) + field(", direction: "@, h.direction as nat) + field(
        ", ep: "@,
        h.ep as nat,
    ) + " }"@
}

/// A packet descriptor as text.
pub open spec fn iso_text(d: IsoPacketDescriptor) -> Seq<char> {
    field("IsoPacketDescriptor { offset: "@, d.offset as nat) + field(
        ", length: "@,
        d.length as nat,
    ) + field(", actual_length: "@, d.actual_length as nat) + field(", status: "@, d.status as nat)
        + " }"@
}

/// Packet descriptors as text, with commas between them.
pub open spec fn isos_text(ds: Seq<IsoPacketDescriptor>) -> Seq<char>
    decreases ds.len(),
{
    if ds.len() == 0 {
        Seq::empty()
    } else if ds.len() == 1 {
        iso_text(ds[0])
    } else {
        isos_text(ds.drop_last()) + ", "@ + iso_text(ds.last())
    }
}

/// Bytes as numbers, with commas between them.
pub open spec fn numbers_text(b: Seq<u8>) -> Seq<char>
    decreases b.len(),
{
    if b.len() == 0 {
        Seq::empty()
    } else if b.len() == 1 {
        decimal(b[0] as nat)
    } else {
        numbers_text(b.drop_last()) + ", "@ + decimal(b.last() as nat)
    }
}

/// A transfer buffer and packet descriptors as text.
pub open spec fn payload_text(data: Seq<u8>, ds: Seq<IsoPacketDescriptor>) -> Seq<char> {
    ", transfer_buffer: "@ + bytes_text(data) + ", iso_packet_descriptors: ["@ + isos_text(ds)
        + "]"@
}

/// A submission as text.
pub open spec fn cmd_submit_text(m: CmdSubmitModel) -> Seq<char> {
    "CmdSubmit(CmdSubmit { header: "@ + header_text(m.header) + field(
        ", transfer_flags: "@,
        m.transfer_flags as nat,
    ) + field(", transfer_buffer_length: "@, m.transfer_buffer_length as nat) + field(
        ", start_frame: "@,
        m.start_frame as nat,
    ) + field(", number_of_packets: "@, m.number_of_packets as nat) + field(
        ", interval: "@,
        m.interval as nat,
    ) + (", setup: ["@ + numbers_text(m.setup) + "]"@) + payload_text(
        m.transfer_buffer,
        m.iso_packet_descriptors,
    ) + " })"@
}

/// A result as text.
pub open spec fn ret_submit_text(m: RetSubmitModel) -> Seq<char> {
    "RetSubmit(RetSubmit { header: "@ + header_text(m.header) + (", status: "@ + signed_decimal(
        m.status as int,
    )) + field(", actual_length: "@, m.actual_length as nat) + field(
        ", start_frame: "@,
        m.start_frame as nat,
    ) + field(", number_of_packets: "@, m.number_of_packets as nat) + field(
        ", error_count: "@,
        m.error_count as nat,
    ) + payload_text(m.transfer_buffer, m.iso_packet_descriptors) + " })"@
}

/// A message of an attached device as text.
pub open spec fn urb_text(m: UrbMessageModel) -> Seq<char> {
    match m {
        UrbMessageModel::CmdSubmit(m) => cmd_submit_text(m),
        UrbMessageModel::RetSubmit(m) => ret_submit_text(m),
        UrbMessageModel::CmdUnlink(m) => "CmdUnlink(CmdUnlink { header: "@ + header_text(m.header)
            + field(", unlink_seqnum: "@, m.unlink_seqnum as nat) + " })"@,
        UrbMessageModel::RetUnlink(m) => "RetUnlink(RetUnlink { header: "@ + header_text(m.header)
            + (", status: "@ + signed_decimal(m.status as int)) + " })"@,
    }
}

fn field_string(name: &str, n: u32) -> (s: String)
    ensures
        s@ == field(name@, n as nat),
{
    name.to_owned().concat(decimal_string(n as u64).as_str())
}

fn header_string(h: &UsbipHeaderBasic) -> (s: String)
    ensures
        s@ == header_text(*h),
{
    field_string("UsbipHeaderBasic { command: ", h.command).concat(
        field_string(", seqnum: ", h.seqnum).as_str(),
    ).concat(field_string(", devid: ", h.devid).as_str()).concat(
        field_string(", direction: ", h.direction).as_str(),
    ).concat(field_string(", ep: ", h.ep).as_str()).concat(" }")
}

fn iso_string(d: &IsoPacketDescriptor) -> (s: String)
    ensures
        s@ == iso_text(*d),
{
    field_string("IsoPacketDescriptor { offset: ", d.offset).concat(
        field_string(", length: ", d.length).as_str(),
    ).concat(field_string(", actual_length: ", d.actual_length).as_str()).concat(
        field_string(", status: ", d.status).as_str(),
    ).concat(" }")
}

fn isos_string(ds: &Vec<IsoPacketDescriptor>) -> (s: String)
    ensures
        s@ == isos_text(ds@),
{
    if ds.len() == 0 {
        return String::new();
    }
    let mut s = iso_string(&ds[0]);
    let mut i: usize = 1;
    assert(ds@.take(1) =~= seq![ds@[0]]);
    while i < ds.len()
        invariant
            1 <= i <= ds@.len(),
            s@ == isos_text(ds@.take(i as int)),
        decreases ds.len() - i,
    {
        assert(ds@.take(i + 1).drop_last() =~= ds@.take(i as int));
        s.append(", ");
        s.append(iso_string(&ds[i]).as_str());
        i = i + 1;
    }
    assert(ds@.take(i as int) =~= ds@);
    s
}

fn numbers_string(b: &[u8]) -> (s: String)
    ensures
        s@ == numbers_text(b@),
{
    if b.len() == 0 {
        return String::new();
    }
    let mut s = decimal_string(b[0] as u64);
    let mut i: usize = 1;
    assert(b@.take(1) =~= seq![b@[0]]);
    while i < b.len()
        invariant
            1 <= i <= b@.len(),
            s@ == numbers_text(b@.take(i as int)),
        decreases b.len() - i,
    {
        assert(b@.take(i + 1).drop_last() =~= b@.take(i as int));
        s.append(", ");
        s.append(decimal_string(b[i] as u64).as_str());
        i = i + 1;
    }
    assert(b@.take(i as int) =~= b@);
    s
}

fn payload_string(data: &Bytes, ds: &Vec<IsoPacketDescriptor>) -> (s: String)
    ensures
        s@ == payload_text(bytes_seq(*data), ds@),
{
    ", transfer_buffer: ".to_owned().concat(bytes_debug(data).as_str()).concat(
        ", iso_packet_descriptors: [",
    ).concat(isos_string(ds).as_str()).concat("]")
}

/// A message of an attached device as text.
pub fn urb_string(m: &UrbMessage) -> (s: String)
    ensures
        s@ == urb_text(m@),
{
    match m {
        UrbMessage::CmdSubmit(m) => "CmdSubmit(CmdSubmit { header: ".to_owned().concat(
            header_string(&m.header).as_str(),
        ).concat(field_string(", transfer_flags: ", m.transfer_flags).as_str()).concat(
            field_string(", transfer_buffer_length: ", m.transfer_buffer_length).as_str(),
        ).concat(field_string(", start_frame: ", m.start_frame).as_str()).concat(
            field_string(", number_of_packets: ", m.number_of_packets).as_str(),
        ).concat(field_string(", interval: ", m.interval).as_str()).concat(
            ", setup: [".to_owned().concat(numbers_string(m.setup.as_slice()).as_str()).concat(
                "]",
            ).as_str(),
        ).concat(payload_string(&m.transfer_buffer, &m.iso_packet_descriptors).as_str()).concat(
            " })",
        ),
        UrbMessage::RetSubmit(m) => "RetSubmit(RetSubmit { header: ".to_owned().concat(
            header_string(&m.header).as_str(),
        ).concat(
            ", status: ".to_owned().concat(signed_decimal_string(m.status as i64).as_str()).as_str(),
        ).concat(field_string(", actual_length: ", m.actual_length).as_str()).concat(
            field_string(", start_frame: ", m.start_frame).as_str(),
        ).concat(field_string(", number_of_packets: ", m.number_of_packets).as_str()).concat(
            field_string(", error_count: ", m.error_count).as_str(),
        ).concat(payload_string(&m.transfer_buffer, &m.iso_packet_descriptors).as_str()).concat(
            " })",
        ),
        UrbMessage::CmdUnlink(m) => "CmdUnlink(CmdUnlink { header: ".to_owned().concat(
            header_string(&m.header).as_str(),
        ).concat(field_string(", unlink_seqnum: ", m.unlink_seqnum).as_str()).concat(" })"),
        UrbMessage::RetUnlink(m) => "RetUnlink(RetUnlink { header: ".to_owned().concat(
            header_string(&m.header).as_str(),
        ).concat(
            ", status: ".to_owned().concat(signed_decimal_string(m.status as i64).as_str()).as_str(),
        ).concat(" })"),
    }
}

/// The text of a message names its kind first, then its header, field by field
/// in the order of the wire, and of a request to unlink the number that it is
/// for.
pub proof fn law_message_text(h: UsbipHeaderBasic, unlink_seqnum: u32, s: String)
    requires
        call_ensures(
            urb_string,
            (&UrbMessage::CmdUnlink(crate::protocol::urb::CmdUnlink { header: h, unlink_seqnum }),),
            s,
        ),
    ensures
        s@ == "CmdUnlink(CmdUnlink { header: "@ + ("UsbipHeaderBasic { command: "@ + decimal(
            h.command as nat,
        ) + (", seqnum: "@ + decimal(h.seqnum as nat)) + (", devid: "@ + decimal(h.devid as nat))
            + (", direction: "@ + decimal(h.direction as nat)) + (", ep: "@ + decimal(h.ep as nat))
            + " }"@) + (", unlink_seqnum: "@ + decimal(unlink_seqnum as nat)) + " })"@,
{
}

} // verus!
