//! Forwarding between a virtual device and its server: requests of the virtual
//! device go out as submissions, and their results come back.

use std::collections::HashMap;

use bytes::Bytes;
use vstd::prelude::*;

use crate::client::vhci_macos::PendingRequest;
use crate::protocol::buf::{bytes_from_vec, bytes_seq};
use crate::protocol::codes::Command;
use crate::protocol::urb::{
    CmdSubmit, CmdSubmitModel, RetSubmit, UrbMessage, UsbipHeaderBasic, MAX_TRANSFER_BUFFER_LENGTH,
    NON_ISO_PACKETS_SENTINEL,
};

verus! {

/// What the driver is told of a request that failed.
pub const KIO_RETURN_ERROR: u32 = 0xe000_02bc;

/// What to do after something has happened.
#[derive(Debug)]
pub enum ForwardAction {
    /// Go on.
    Continue,
    /// Tell the driver that a request is complete.
    Complete { request_id: u32, status: i32, data: Bytes },
    /// Send a submission.
    Send(CmdSubmit),
    /// End the forwarding.
    Stop,
}

/// The requests that are under way, by the sequence numbers of their
/// submissions, and the sequence number that comes next.
pub struct Forwarder {
    devid: u32,
    pending: HashMap<u32, u32>,
    next_seqnum: u32,
}

/// What the driver is told of the status of a result.
pub open spec fn driver_status(status: i32) -> i32 {
    if status == 0 {
        0
    } else {
        KIO_RETURN_ERROR as i32
    }
}

/// The submission for a request of a virtual device. The direction is bit 7 of
/// the endpoint's address, and the data goes along whole.
pub open spec fn submission(devid: u32, seqnum: u32, req: PendingRequest) -> CmdSubmitModel {
    CmdSubmitModel {
        header: UsbipHeaderBasic {
            command: Command::CmdSubmit.spec_code(),
            seqnum,
            devid,
            direction: if req.endpoint & 0x80 != 0 {
                1
            } else {
                0
            },
            ep: req.endpoint & 0x0f,
        },
        transfer_flags: 0,
        transfer_buffer_length: req.data@.len() as u32,
        start_frame: 0,
        number_of_packets: NON_ISO_PACKETS_SENTINEL,
        interval: 0,
        setup: seq![0u8, 0u8, 0u8, 0u8, 0u8, 0u8, 0u8, 0u8],
        transfer_buffer: req.data@,
        iso_packet_descriptors: Seq::empty(),
    }
}

impl Forwarder {
    /// The requests that are under way, by sequence number.
    pub closed spec fn pending(self) -> Map<u32, u32> {
        self.pending@
    }

    /// The sequence number that comes next.
    pub closed spec fn next(self) -> u32 {
        self.next_seqnum
    }

    /// The device.
    pub closed spec fn device(self) -> u32 {
        self.devid
    }

    /// Nothing is under way. Sequence numbers start at 1.
    pub fn new(devid: u32) -> (f: Self)
        ensures
            f.device() == devid,
            f.next() == 1,
            f.pending() == Map::<u32, u32>::empty(),
    {
        broadcast use vstd::std_specs::hash::group_hash_axioms;

        Forwarder { devid, pending: HashMap::new(), next_seqnum: 1 }
    }

    /// A message has arrived. The result of a request that is under way
    /// completes it; every other message is passed over.
    pub fn on_message(&mut self, msg: UrbMessage) -> (a: ForwardAction)
        ensures
            final(self).device() == old(self).device(),
            final(self).next() == old(self).next(),
            match msg {
                UrbMessage::RetSubmit(ret) => {
                    let s = ret.header.seqnum;
                    if old(self).pending().dom().contains(s) {
                        &&& final(self).pending() == old(self).pending().remove(s)
                        &&& a == (ForwardAction::Complete {
                            request_id: old(self).pending()[s],
                            status: driver_status(ret.status),
                            data: ret.transfer_buffer,
                        })
                    } else {
                        final(self).pending() == old(self).pending() && a
                            == ForwardAction::Continue
                    }
                },
                _ => final(self).pending() == old(self).pending() && a == ForwardAction::Continue,
            },
    {
        broadcast use vstd::std_specs::hash::group_hash_axioms;

        match msg {
            UrbMessage::RetSubmit(ret) => {
                let seqnum: u32 = ret.header.seqnum;
                match self.pending.remove(&seqnum) {
                    Some(request_id) => {
                        let status: i32 = if ret.status == 0 {
                            0
                        } else {
                            KIO_RETURN_ERROR as i32
                        };
                        ForwardAction::Complete { request_id, status, data: ret.transfer_buffer }
                    },
                    None => {
                        assert(self.pending@ =~= old(self).pending@);
                        ForwardAction::Continue
                    },
                }
            },
            _ => ForwardAction::Continue,
        }
    }

    /// Reading a message has failed.
    pub fn on_read_failure(&self) -> (a: ForwardAction)
        ensures
            a == ForwardAction::Stop,
    {
        ForwardAction::Stop
    }

    /// The driver has been polled: where it could not say, or has nothing,
    /// there is nothing to do; a request is sent under the next sequence
    /// number.
    pub fn on_poll(&mut self, polled: Option<PendingRequest>) -> (a: ForwardAction)
        ensures
            final(self).device() == old(self).device(),
            match polled {
                Some(req) => {
                    &&& a matches ForwardAction::Send(cmd) && cmd@ == submission(
                        old(self).device(),
                        old(self).next(),
                        req,
                    )
                    &&& final(self).next() == old(self).next().wrapping_add(1)
                    &&& final(self).pending() == old(self).pending().insert(
                        old(self).next(),
                        req.request_id,
                    )
                },
                None => {
                    &&& a == ForwardAction::Continue
                    &&& final(self).next() == old(self).next()
                    &&& final(self).pending() == old(self).pending()
                },
            },
    {
        broadcast use vstd::std_specs::hash::group_hash_axioms;

        match polled {
            Some(req) => {
                let seqnum: u32 = self.next_seqnum;
                self.next_seqnum = self.next_seqnum.wrapping_add(1);
                self.pending.insert(seqnum, req.request_id);
                let direction: u32 = if (req.endpoint & 0x80) != 0 {
                    1
                } else {
                    0
                };
                let len: u32 = req.data.len() as u32;
                let setup: [u8; 8] = [0, 0, 0, 0, 0, 0, 0, 0];
                let cmd = CmdSubmit {
                    header: UsbipHeaderBasic {
                        command: Command::CmdSubmit.code(),
                        seqnum,
                        devid: self.devid,
                        direction,
                        ep: req.endpoint & 0x0f,
                    },
                    transfer_flags: 0,
                    transfer_buffer_length: len,
                    start_frame: 0,
                    number_of_packets: NON_ISO_PACKETS_SENTINEL,
                    interval: 0,
                    setup,
                    transfer_buffer: bytes_from_vec(req.data),
                    iso_packet_descriptors: Vec::new(),
                };
                proof {
                    let want = submission(old(self).device(), old(self).next(), req);
                    assert(cmd@.setup =~= want.setup);
                    assert(cmd@.iso_packet_descriptors =~= want.iso_packet_descriptors);
                }
                ForwardAction::Send(cmd)
            },
            None => ForwardAction::Continue,
        }
    }

    /// Sending the submission with a sequence number has failed: no result
    /// will come for it.
    pub fn on_write_failure(&mut self, seqnum: u32) -> (a: ForwardAction)
        ensures
            a == ForwardAction::Stop,
            final(self).device() == old(self).device(),
            final(self).next() == old(self).next(),
            final(self).pending() == old(self).pending().remove(seqnum),
    {
        broadcast use vstd::std_specs::hash::group_hash_axioms;

        self.pending.remove(&seqnum);
        assert(self.pending@ =~= old(self).pending@.remove(seqnum));
        ForwardAction::Stop
    }
}

proof fn lemma_endpoint_bits(endpoint: u32)
    requires
        endpoint < 256,
    ensures
        endpoint & 0x0f == endpoint % 16,
        endpoint & 0x80 != 0 <==> endpoint >= 128,
{
    assert(endpoint & 0x0f == endpoint % 16) by (bit_vector);
    assert(endpoint < 256 ==> (endpoint & 0x80 != 0 <==> endpoint >= 128)) by (bit_vector);
}

/// A request of the driver goes out under the next sequence number, to the
/// number of its endpoint, into the host exactly where its address is from 128
/// on, with all of its data; and it is then under way under that number.
pub proof fn law_request_sent(f: &mut Forwarder, req: PendingRequest, a: ForwardAction)
    requires
        call_ensures(Forwarder::on_poll, (f, Some(req)), a),
        req.endpoint < 256,
        req.data@.len() <= u32::MAX,
    ensures
        a matches ForwardAction::Send(cmd) && {
            &&& cmd.header.command == 1
            &&& cmd.header.seqnum == old(f).next()
            &&& cmd.header.devid == old(f).device()
            &&& cmd.header.ep == req.endpoint % 16
            &&& cmd.header.direction == 1 <==> req.endpoint >= 128
            &&& cmd.header.direction == 0 <==> req.endpoint < 128
            &&& cmd.transfer_flags == 0
            &&& cmd.transfer_buffer_length == req.data@.len()
            &&& bytes_seq(cmd.transfer_buffer) == req.data@
            &&& cmd.number_of_packets == 0xffff_ffff
            &&& forall|i: int| 0 <= i < 8 ==> #[trigger] cmd.setup@[i] == 0
            &&& cmd.iso_packet_descriptors@.len() == 0
        },
        old(f).next() < u32::MAX ==> final(f).next() == old(f).next() + 1,
        old(f).next() == u32::MAX ==> final(f).next() == 0,
        final(f).pending().dom().contains(old(f).next()),
        final(f).pending()[old(f).next()] == req.request_id,
        forall|s: u32|
            s != old(f).next() ==> (#[trigger] final(f).pending().dom().contains(s) <==> old(f).pending().dom().contains(s)),
        forall|s: u32|
            s != old(f).next() && old(f).pending().dom().contains(s) ==> #[trigger] final(f).pending()[s] == old(f).pending()[s],
{
    lemma_endpoint_bits(req.endpoint);
}

/// The driver that has nothing leaves everything as it was.
pub proof fn law_nothing_polled(f: &mut Forwarder, a: ForwardAction)
    requires
        call_ensures(Forwarder::on_poll, (f, None), a),
    ensures
        a is Continue,
        final(f).pending() == old(f).pending(),
        final(f).next() == old(f).next(),
{
}

/// A result for a request that is under way completes that request, with its
/// data, and with status zero exactly where the result has status zero; it is
/// under way no more, and every other one still is. Any other message is passed
/// over.
pub proof fn law_result_comes_back(f: &mut Forwarder, msg: UrbMessage, a: ForwardAction)
    requires
        call_ensures(Forwarder::on_message, (f, msg), a),
    ensures
        final(f).next() == old(f).next(),
        match msg {
            UrbMessage::RetSubmit(ret) => if old(f).pending().dom().contains(ret.header.seqnum) {
                &&& a matches ForwardAction::Complete { request_id, status, data } && request_id
                    == old(f).pending()[ret.header.seqnum] && (status == 0 <==> ret.status == 0)
                    && data == ret.transfer_buffer
                &&& !final(f).pending().dom().contains(ret.header.seqnum)
                &&& forall|s: u32|
                    s != ret.header.seqnum ==> (#[trigger] final(f).pending().dom().contains(s)
                        <==> old(f).pending().dom().contains(s))
                &&& forall|s: u32|
                    s != ret.header.seqnum && old(f).pending().dom().contains(s)
                        ==> #[trigger] final(f).pending()[s] == old(f).pending()[s]
            } else {
                a is Continue && final(f).pending() == old(f).pending()
            },
            _ => a is Continue && final(f).pending() == old(f).pending(),
        },
{
    assert(0xe000_02bcu32 as i32 != 0) by (bit_vector);
}

/// A request sent and answered: the driver's request goes out, and the result
/// under its sequence number completes that very request.
pub proof fn law_request_and_result(
    f: &mut Forwarder,
    g: &mut Forwarder,
    req: PendingRequest,
    ret: RetSubmit,
    sent: ForwardAction,
    done: ForwardAction,
)
    requires
        call_ensures(Forwarder::on_poll, (f, Some(req)), sent),
        *old(g) == *final(f),
        call_ensures(Forwarder::on_message, (g, UrbMessage::RetSubmit(ret)), done),
        sent matches ForwardAction::Send(cmd) && ret.header.seqnum == cmd.header.seqnum,
    ensures
        done matches ForwardAction::Complete { request_id, data, .. } && request_id
            == req.request_id && data == ret.transfer_buffer,
{
}

/// A failure to write ends the forwarding, and the submission that could not be
/// sent is under way no more.
pub proof fn law_failures(f: &mut Forwarder, seqnum: u32, a: ForwardAction)
    requires
        call_ensures(Forwarder::on_write_failure, (f, seqnum), a),
    ensures
        a is Stop,
        !final(f).pending().dom().contains(seqnum),
        forall|s: u32|
            s != seqnum ==> (#[trigger] final(f).pending().dom().contains(s) <==> old(f).pending().dom().contains(s)),
        forall|b: ForwardAction| #[trigger]
            call_ensures(Forwarder::on_read_failure, (&*old(f),), b) ==> b is Stop,
{
}

/// The result of a submission completes the request it was made for, and then
/// the same requests are under way as before; a second result for it would be
/// passed over.
pub proof fn law_result_completes_its_request(
    before: Map<u32, u32>,
    seqnum: u32,
    request_id: u32,
)
    requires
        !before.dom().contains(seqnum),
    ensures
        before.insert(seqnum, request_id).dom().contains(seqnum),
        before.insert(seqnum, request_id)[seqnum] == request_id,
        before.insert(seqnum, request_id).remove(seqnum) == before,
        !before.insert(seqnum, request_id).remove(seqnum).dom().contains(seqnum),
{
    assert(before.insert(seqnum, request_id).remove(seqnum) =~= before);
}

/// The requests that are under way have numbers below the one that comes next.
pub open spec fn numbered(pending: Map<u32, u32>, next: u32) -> bool {
    forall|s: u32| #[trigger] pending.dom().contains(s) ==> 0 < s < next
}

/// A request gets a number that no request under way has, until the numbers
/// have run out: so it is at the start, and so it stays as requests are sent and
/// completed.
pub proof fn law_numbers_are_fresh(pending: Map<u32, u32>, next: u32, request_id: u32, done: u32)
    requires
        numbered(pending, next),
        0 < next < u32::MAX,
    ensures
        numbered(Map::empty(), 1),
        !pending.dom().contains(next),
        numbered(pending.insert(next, request_id), next.wrapping_add(1)),
        numbered(pending.remove(done), next),
{
}

/// The submission for a request is one that a server reads as it was meant,
/// where its data is no longer than allowed, and goes towards the device or is
/// none.
pub proof fn law_submission_readable(devid: u32, seqnum: u32, req: PendingRequest)
    requires
        req.endpoint & 0x80 == 0 || req.data@.len() == 0,
        req.data@.len() <= MAX_TRANSFER_BUFFER_LENGTH,
    ensures
        submission(devid, seqnum, req).consistent(),
{
}

} // verus!
