//! Transfers to an imported device: what is submitted, and what its result
//! means.

use vstd::prelude::*;
use vstd::slice::slice_to_vec;
use vstd::string::*;

use crate::client::engine::{devid_of, import_reply};
use crate::client::error::ClientError;
use crate::protocol::buf::{bytes_as_ref, bytes_copy_from_slice, bytes_new, bytes_seq};
use crate::protocol::codes::Command;
use crate::protocol::debug::{urb_string, urb_text};
use crate::protocol::device::UsbDevice;
use crate::protocol::discovery::OpMessage;
use crate::protocol::urb::{
    CmdSubmit, CmdSubmitModel, IsoPacketDescriptor, UrbMessage, UsbipHeaderBasic,
    NON_ISO_PACKETS_SENTINEL,
};
use crate::text::{signed_decimal, signed_decimal_string};

verus! {

/// The class of a device, by which its errors are told apart.
#[derive(Debug, Clone, Copy, PartialEq, Eq, Structural)]
pub enum DeviceKind {
    MassStorage,
    Network,
    Audio,
    Hid,
    Serial,
}

/// An error is that of a class of devices, with a text.
pub open spec fn is_device_error(e: ClientError, kind: DeviceKind, text: Seq<char>) -> bool {
    match kind {
        DeviceKind::MassStorage => e matches ClientError::MassStorage(s) && s@ == text,
        DeviceKind::Network => e matches ClientError::Network(s) && s@ == text,
        DeviceKind::Audio => e matches ClientError::Audio(s) && s@ == text,
        DeviceKind::Hid => e matches ClientError::Hid(s) && s@ == text,
        DeviceKind::Serial => e matches ClientError::Serial(s) && s@ == text,
    }
}

/// The error of a class of devices with a text.
pub fn device_error(kind: DeviceKind, text: String) -> (e: ClientError)
    ensures
        is_device_error(e, kind, text@),
{
    match kind {
        DeviceKind::MassStorage => ClientError::MassStorage(text),
        DeviceKind::Network => ClientError::Network(text),
        DeviceKind::Audio => ClientError::Audio(text),
        DeviceKind::Hid => ClientError::Hid(text),
        DeviceKind::Serial => ClientError::Serial(text),
    }
}

/// The number that comes after a sequence number or a tag. Zero is passed over.
pub open spec fn number_after(n: u32) -> u32 {
    if n == u32::MAX {
        1
    } else {
        (n + 1) as u32
    }
}

/// The number that comes after a sequence number or a tag.
pub fn next_number(n: u32) -> (m: u32)
    ensures
        m == number_after(n),
{
    let m: u32 = n.wrapping_add(1);
    if m == 0 {
        1
    } else {
        m
    }
}

/// A number is never zero and never the one before it.
pub proof fn law_number_after(n: u32)
    ensures
        number_after(n) != 0,
        number_after(n) != n,
{
}

/// A setup packet of zeros, for transfers that are no control transfers.
pub open spec fn no_setup() -> Seq<u8> {
    seq![0u8, 0u8, 0u8, 0u8, 0u8, 0u8, 0u8, 0u8]
}

/// A submission that is not isochronous.
pub open spec fn plain_submission(
    devid: u32,
    seqnum: u32,
    direction: u32,
    ep: u32,
    length: u32,
    setup: Seq<u8>,
    data: Seq<u8>,
) -> CmdSubmitModel {
    CmdSubmitModel {
        header: UsbipHeaderBasic {
            command: Command::CmdSubmit.spec_code(),
            seqnum,
            devid,
            direction,
            ep,
        },
        transfer_flags: 0,
        transfer_buffer_length: length,
        start_frame: 0,
        number_of_packets: NON_ISO_PACKETS_SENTINEL,
        interval: 0,
        setup,
        transfer_buffer: data,
        iso_packet_descriptors: Seq::empty(),
    }
}

/// The end of a device to which transfers are submitted: its number, and the
/// sequence number that comes next.
#[derive(Debug, Clone, Copy)]
pub struct Link {
    pub devid: u32,
    pub next_seqnum: u32,
}

impl Link {
    /// The same link after a submission.
    pub open spec fn after(self) -> Link {
        Link { devid: self.devid, next_seqnum: number_after(self.next_seqnum) }
    }

    /// The transfer out of the host on the control endpoint.
    pub open spec fn control_out_model(self, setup: Seq<u8>, data: Seq<u8>) -> CmdSubmitModel {
        plain_submission(self.devid, self.next_seqnum, 0, 0, data.len() as u32, setup, data)
    }

    /// The transfer into the host on the control endpoint.
    pub open spec fn control_in_model(self, setup: Seq<u8>, length: u32) -> CmdSubmitModel {
        plain_submission(self.devid, self.next_seqnum, 1, 0, length, setup, Seq::empty())
    }

    /// The transfer out of the host on an endpoint.
    pub open spec fn out_model(self, endpoint: u8, data: Seq<u8>) -> CmdSubmitModel {
        plain_submission(
            self.devid,
            self.next_seqnum,
            0,
            (endpoint & 0x0f) as u32,
            data.len() as u32,
            no_setup(),
            data,
        )
    }

    /// The transfer into the host on an endpoint.
    pub open spec fn in_model(self, endpoint: u8, length: u32) -> CmdSubmitModel {
        plain_submission(
            self.devid,
            self.next_seqnum,
            1,
            (endpoint & 0x0f) as u32,
            length,
            no_setup(),
            Seq::empty(),
        )
    }

    /// The link to an imported device, from the server's answer to the import.
    /// Sequence numbers start at 1.
    pub fn connect(busid: &str, reply: OpMessage) -> (r: Result<(Link, UsbDevice), ClientError>)
        ensures
            match reply {
                OpMessage::RepImport(rep) => if rep.status != 0 {
                    r matches Err(ClientError::ImportRejected { busid: b, status }) && b@ == busid@
                        && status == rep.status
                } else {
                    match rep.device {
                        Some(d) => r == Ok::<(Link, UsbDevice), ClientError>(
                            (Link { devid: devid_of(d), next_seqnum: 1 }, d),
                        ),
                        None => r == Err::<(Link, UsbDevice), ClientError>(
                            ClientError::ImportMissingDevice,
                        ),
                    }
                },
                _ => r == Err::<(Link, UsbDevice), ClientError>(
                    ClientError::Protocol(
                        crate::protocol::error::ProtocolError::InvalidOpCode(0),
                    ),
                ),
            },
    {
        match import_reply(busid, reply) {
            Ok(d) => {
                let devid: u32 = (d.busnum << 16) | d.devnum;
                Ok((Link { devid, next_seqnum: 1 }, d))
            },
            Err(e) => Err(e),
        }
    }

    /// Take the sequence number that comes next.
    pub fn take_seqnum(&mut self) -> (n: u32)
        ensures
            n == old(self).next_seqnum,
            *final(self) == old(self).after(),
    {
        let n: u32 = self.next_seqnum;
        self.next_seqnum = next_number(n);
        n
    }

    /// Submit a transfer out of the host on the control endpoint.
    pub fn control_out(&mut self, setup: &[u8; 8], data: &[u8]) -> (cmd: CmdSubmit)
        ensures
            cmd@ == old(self).control_out_model(setup@, data@),
            *final(self) == old(self).after(),
    {
        let seqnum = self.take_seqnum();
        let cmd = submission(
            self.devid,
            seqnum,
            0,
            0,
            data.len() as u32,
            *setup,
            Some(data),
        );
        cmd
    }

    /// Submit a transfer into the host on the control endpoint.
    pub fn control_in(&mut self, setup: &[u8; 8], length: u32) -> (cmd: CmdSubmit)
        ensures
            cmd@ == old(self).control_in_model(setup@, length),
            *final(self) == old(self).after(),
    {
        let seqnum = self.take_seqnum();
        submission(self.devid, seqnum, 1, 0, length, *setup, None)
    }

    /// Submit a transfer out of the host on an endpoint.
    pub fn send(&mut self, endpoint: u8, data: &[u8]) -> (cmd: CmdSubmit)
        ensures
            cmd@ == old(self).out_model(endpoint, data@),
            *final(self) == old(self).after(),
    {
        let seqnum = self.take_seqnum();
        let zero: [u8; 8] = [0, 0, 0, 0, 0, 0, 0, 0];
        assert(zero@ =~= no_setup());
        submission(
            self.devid,
            seqnum,
            0,
            (endpoint & 0x0f) as u32,
            data.len() as u32,
            zero,
            Some(data),
        )
    }

    /// Submit a transfer into the host on an endpoint.
    pub fn receive(&mut self, endpoint: u8, length: u32) -> (cmd: CmdSubmit)
        ensures
            cmd@ == old(self).in_model(endpoint, length),
            *final(self) == old(self).after(),
    {
        let seqnum = self.take_seqnum();
        let zero: [u8; 8] = [0, 0, 0, 0, 0, 0, 0, 0];
        assert(zero@ =~= no_setup());
        submission(self.devid, seqnum, 1, (endpoint & 0x0f) as u32, length, zero, None)
    }
}

fn submission(
    devid: u32,
    seqnum: u32,
    direction: u32,
    ep: u32,
    length: u32,
    setup: [u8; 8],
    data: Option<&[u8]>,
) -> (cmd: CmdSubmit)
    ensures
        cmd@ == plain_submission(
            devid,
            seqnum,
            direction,
            ep,
            length,
            setup@,
            match data {
                Some(d) => d@,
                None => Seq::empty(),
            },
        ),
{
    let transfer_buffer = match data {
        Some(d) => bytes_copy_from_slice(d),
        None => bytes_new(),
    };
    let cmd = CmdSubmit {
        header: UsbipHeaderBasic {
            command: Command::CmdSubmit.code(),
            seqnum,
            devid,
            direction,
            ep,
        },
        transfer_flags: 0,
        transfer_buffer_length: length,
        start_frame: 0,
        number_of_packets: NON_ISO_PACKETS_SENTINEL,
        interval: 0,
        setup,
        transfer_buffer,
        iso_packet_descriptors: Vec::new(),
    };
    assert(cmd@.iso_packet_descriptors =~= Seq::<IsoPacketDescriptor>::empty());
    cmd
}

/// What the result of a transfer means: its data, where it succeeded; else an
/// error of the device's class, which says what failed.
pub open spec fn result_means(
    msg: UrbMessage,
    kind: DeviceKind,
    what: Seq<char>,
    r: Result<Vec<u8>, ClientError>,
) -> bool {
    match msg {
        UrbMessage::RetSubmit(ret) => if ret.status != 0 {
            r matches Err(e) && is_device_error(
                e,
                kind,
                what + " failed with status "@ + signed_decimal(ret.status as int),
            )
        } else {
            r matches Ok(v) && v@ == bytes_seq(ret.transfer_buffer)
        },
        other => r matches Err(e) && is_device_error(
            e,
            kind,
            "expected RetSubmit, got "@ + urb_text(other@),
        ),
    }
}

/// What the result of a transfer means.
pub fn read_ret_submit(msg: &UrbMessage, kind: DeviceKind, what: &str) -> (r: Result<
    Vec<u8>,
    ClientError,
>)
    ensures
        result_means(*msg, kind, what@, r),
{
    match msg {
        UrbMessage::RetSubmit(ret) => {
            if ret.status != 0 {
                return Err(
                    device_error(
                        kind,
                        what.to_owned().concat(" failed with status ").concat(
                            signed_decimal_string(ret.status as i64).as_str(),
                        ),
                    ),
                );
            }
            Ok(slice_to_vec(bytes_as_ref(&ret.transfer_buffer)))
        },
        _ => Err(
            device_error(
                kind,
                "expected RetSubmit, got ".to_owned().concat(urb_string(msg).as_str()),
            ),
        ),
    }
}

/// What is copied to the front of a buffer: as much of the data as fits.
pub open spec fn copied(buf: Seq<u8>, data: Seq<u8>) -> Seq<u8> {
    if data.len() <= buf.len() {
        data + buf.skip(data.len() as int)
    } else {
        data.take(buf.len() as int)
    }
}

/// The smaller of two lengths.
pub open spec fn shorter(a: nat, b: nat) -> nat {
    if a <= b {
        a
    } else {
        b
    }
}

/// Copy as much of the data to the front of a buffer as fits, and say how much
/// that is.
pub fn copy_front(buf: &mut [u8], data: &Vec<u8>) -> (n: usize)
    ensures
        n == shorter(data@.len(), old(buf)@.len()),
        final(buf)@ == copied(old(buf)@, data@),
{
    let n: usize = if data.len() <= buf.len() {
        data.len()
    } else {
        buf.len()
    };
    let mut i: usize = 0;
    while i < n
        invariant
            i <= n <= data@.len(),
            n <= buf@.len(),
            buf@.len() == old(buf)@.len(),
            forall|j: int|
                0 <= j < buf@.len() ==> #[trigger] buf@[j] == if j < i {
                    data@[j]
                } else {
                    old(buf)@[j]
                },
        decreases n - i,
    {
        buf[i] = data[i];
        i = i + 1;
    }
    assert(buf@ =~= copied(old(buf)@, data@));
    n
}

/// The number of an endpoint is the lower half of its address.
pub proof fn lemma_endpoint_number(endpoint: u8)
    ensures
        (endpoint & 0x0f) as u32 == endpoint % 16,
{
    assert(endpoint & 0x0f == endpoint % 16) by (bit_vector);
}

/// A setup packet stands field by field in its eight bytes, and the numbers in
/// it have their low byte first: the type of request, the request, its value,
/// the interface and the length of the data.
pub open spec fn setup_stands(
    s: Seq<u8>,
    request_type: int,
    request: int,
    value: int,
    interface: int,
    length: int,
) -> bool {
    &&& s.len() == 8
    &&& s[0] == request_type
    &&& s[1] == request
    &&& s[2] + 256 * s[3] == value
    &&& s[4] + 256 * s[5] == interface
    &&& s[6] + 256 * s[7] == length
}

/// A submission with which data goes out of the host on an endpoint.
pub open spec fn sends(cmd: CmdSubmit, link: Link, endpoint: int, data: Seq<u8>) -> bool {
    &&& cmd.header.command == 1
    &&& cmd.header.direction == 0
    &&& cmd.header.ep == endpoint % 16
    &&& cmd.header.devid == link.devid
    &&& cmd.header.seqnum == link.next_seqnum
    &&& cmd.transfer_buffer_length == data.len()
    &&& bytes_seq(cmd.transfer_buffer) == data
    &&& cmd.number_of_packets == 0xffff_ffff
    &&& cmd.iso_packet_descriptors@.len() == 0
}

/// A submission with which up to `length` bytes of data are asked for from an
/// endpoint.
pub open spec fn asks(cmd: CmdSubmit, link: Link, endpoint: int, length: int) -> bool {
    &&& cmd.header.command == 1
    &&& cmd.header.direction == 1
    &&& cmd.header.ep == endpoint % 16
    &&& cmd.header.devid == link.devid
    &&& cmd.header.seqnum == link.next_seqnum
    &&& cmd.transfer_buffer_length == length
    &&& bytes_seq(cmd.transfer_buffer).len() == 0
    &&& cmd.number_of_packets == 0xffff_ffff
    &&& cmd.iso_packet_descriptors@.len() == 0
}

/// What is sent goes out of the host to the number of the endpoint, with all of
/// the data and the sequence number that is next.
pub proof fn law_send(link: &mut Link, endpoint: u8, data: &[u8], cmd: CmdSubmit)
    requires
        call_ensures(Link::send, (link, endpoint, data), cmd),
        data@.len() <= u32::MAX,
    ensures
        cmd.header.direction == 0,
        cmd.header.ep == endpoint % 16,
        cmd.transfer_buffer_length == data@.len(),
        bytes_seq(cmd.transfer_buffer) == data@,
        forall|i: int| 0 <= i < 8 ==> #[trigger] cmd.setup@[i] == 0,
        cmd.header.command == 1,
        cmd.header.seqnum == old(link).next_seqnum,
        cmd.header.devid == old(link).devid,
        cmd.transfer_flags == 0,
        cmd.start_frame == 0,
        cmd.number_of_packets == 0xffff_ffff,
        cmd.interval == 0,
        cmd.iso_packet_descriptors@.len() == 0,
        final(link).devid == old(link).devid,
        old(link).next_seqnum < u32::MAX ==> final(link).next_seqnum == old(link).next_seqnum + 1,
        old(link).next_seqnum == u32::MAX ==> final(link).next_seqnum == 1,
{
    lemma_endpoint_number(endpoint);
    lemma_zero_setup(cmd);
}

proof fn lemma_zero_setup(cmd: CmdSubmit)
    ensures
        cmd@.setup == no_setup() ==> forall|i: int| 0 <= i < 8 ==> #[trigger] cmd.setup@[i] == 0,
{
}

/// What is received comes into the host from the number of the endpoint; no
/// data goes along, and as much is asked for as is wanted.
pub proof fn law_receive(link: &mut Link, endpoint: u8, length: u32, cmd: CmdSubmit)
    requires
        call_ensures(Link::receive, (link, endpoint, length), cmd),
    ensures
        cmd.header.direction == 1,
        cmd.header.ep == endpoint % 16,
        cmd.transfer_buffer_length == length,
        bytes_seq(cmd.transfer_buffer).len() == 0,
        forall|i: int| 0 <= i < 8 ==> #[trigger] cmd.setup@[i] == 0,
        cmd.header.command == 1,
        cmd.header.seqnum == old(link).next_seqnum,
        cmd.header.devid == old(link).devid,
        cmd.transfer_flags == 0,
        cmd.start_frame == 0,
        cmd.number_of_packets == 0xffff_ffff,
        cmd.interval == 0,
        cmd.iso_packet_descriptors@.len() == 0,
        final(link).devid == old(link).devid,
        old(link).next_seqnum < u32::MAX ==> final(link).next_seqnum == old(link).next_seqnum + 1,
        old(link).next_seqnum == u32::MAX ==> final(link).next_seqnum == 1,
{
    lemma_endpoint_number(endpoint);
    lemma_zero_setup(cmd);
}

/// A control transfer out of the host carries its setup packet and all of its
/// data, to endpoint zero.
pub proof fn law_control_out(link: &mut Link, setup: &[u8; 8], data: &[u8], cmd: CmdSubmit)
    requires
        call_ensures(Link::control_out, (link, setup, data), cmd),
        data@.len() <= u32::MAX,
    ensures
        cmd.header.direction == 0,
        cmd.header.ep == 0,
        cmd.transfer_buffer_length == data@.len(),
        bytes_seq(cmd.transfer_buffer) == data@,
        cmd.setup@ == setup@,
        cmd.header.command == 1,
        cmd.header.seqnum == old(link).next_seqnum,
        cmd.header.devid == old(link).devid,
        cmd.transfer_flags == 0,
        cmd.start_frame == 0,
        cmd.number_of_packets == 0xffff_ffff,
        cmd.interval == 0,
        cmd.iso_packet_descriptors@.len() == 0,
        final(link).devid == old(link).devid,
        old(link).next_seqnum < u32::MAX ==> final(link).next_seqnum == old(link).next_seqnum + 1,
        old(link).next_seqnum == u32::MAX ==> final(link).next_seqnum == 1,
{
}

/// A control transfer into the host carries its setup packet and no data, from
/// endpoint zero, and asks for as much as is wanted.
pub proof fn law_control_in(link: &mut Link, setup: &[u8; 8], length: u32, cmd: CmdSubmit)
    requires
        call_ensures(Link::control_in, (link, setup, length), cmd),
    ensures
        cmd.header.direction == 1,
        cmd.header.ep == 0,
        cmd.transfer_buffer_length == length,
        bytes_seq(cmd.transfer_buffer).len() == 0,
        cmd.setup@ == setup@,
        cmd.header.command == 1,
        cmd.header.seqnum == old(link).next_seqnum,
        cmd.header.devid == old(link).devid,
        cmd.transfer_flags == 0,
        cmd.start_frame == 0,
        cmd.number_of_packets == 0xffff_ffff,
        cmd.interval == 0,
        cmd.iso_packet_descriptors@.len() == 0,
        final(link).devid == old(link).devid,
        old(link).next_seqnum < u32::MAX ==> final(link).next_seqnum == old(link).next_seqnum + 1,
        old(link).next_seqnum == u32::MAX ==> final(link).next_seqnum == 1,
{
}

/// The result of a transfer gives the data of a result with status zero, and an
/// error for every other message.
pub proof fn law_transfer_result(
    msg: UrbMessage,
    kind: DeviceKind,
    what: &str,
    r: Result<Vec<u8>, ClientError>,
)
    requires
        call_ensures(read_ret_submit, (&msg, kind, what), r),
    ensures
        r is Ok <==> (msg matches UrbMessage::RetSubmit(ret) && ret.status == 0),
        r matches Ok(v) ==> v@ == bytes_seq(msg->RetSubmit_0.transfer_buffer),
        r matches Err(e) ==> match kind {
            DeviceKind::MassStorage => e is MassStorage,
            DeviceKind::Network => e is Network,
            DeviceKind::Audio => e is Audio,
            DeviceKind::Hid => e is Hid,
            DeviceKind::Serial => e is Serial,
        },
{
}

/// As much of the data is copied to the front of a buffer as fits, and what is
/// behind stays.
pub proof fn law_copy_front(buf: &mut [u8], data: Vec<u8>, n: usize)
    requires
        call_ensures(copy_front, (buf, &data), n),
    ensures
        n <= data@.len(),
        n <= old(buf)@.len(),
        n == data@.len() || n == old(buf)@.len(),
        final(buf)@.len() == old(buf)@.len(),
        forall|i: int| 0 <= i < n ==> #[trigger] final(buf)@[i] == data@[i],
        forall|i: int| n <= i < old(buf)@.len() ==> #[trigger] final(buf)@[i] == old(buf)@[i],
{
}

/// The link to an imported device has the number made of its bus and of its
/// number on it, and counts from one.
pub proof fn law_link_of_device(busid: &str, reply: OpMessage, link: Link, d: UsbDevice)
    requires
        call_ensures(Link::connect, (busid, reply), Ok((link, d))),
        d.busnum < 0x10000,
        d.devnum < 0x10000,
    ensures
        link.devid == d.busnum * 0x10000 + d.devnum,
        link.next_seqnum == 1,
        reply matches OpMessage::RepImport(rep) && rep.status == 0 && rep.device == Some(d),
{
    crate::client::engine::law_device_number(d);
}

} // verus!
