//! Audio devices: samples in isochronous packets, and the controls of rate,
//! volume and mute.

use vstd::prelude::*;
use vstd::string::*;

use crate::client::engine::devid_of;
use crate::client::error::ClientError;
use crate::client::transfer::{
    copied, copy_front, is_device_error, no_setup, read_ret_submit, result_means, shorter,
    DeviceKind, Link,
};
use crate::protocol::buf::{bytes_copy_from_slice, bytes_new, bytes_seq};
use crate::protocol::codes::Command;
use crate::protocol::discovery::OpMessage;
use crate::protocol::urb::{
    CmdSubmit, CmdSubmitModel, IsoPacketDescriptor, UrbMessage, UsbipHeaderBasic,
};

verus! {

/// The endpoint that samples are played on.
pub const DEFAULT_EP_PLAYBACK: u8 = 0x01;

/// The endpoint that samples are captured from.
pub const DEFAULT_EP_CAPTURE: u8 = 0x82;

/// The unit whose volume and mute are controlled.
pub const DEFAULT_FEATURE_UNIT_ID: u8 = 0x02;

/// The request to set a control.
pub const SET_CUR: u8 = 0x01;

/// The request to read a control.
pub const GET_CUR: u8 = 0x81;

/// The volume control.
pub const VOLUME_CONTROL: u8 = 0x02;

/// The mute control.
pub const MUTE_CONTROL: u8 = 0x01;

/// The most packets in one transfer.
pub const MAX_PACKETS: usize = 32;

/// The setup packet that sets the sample rate of an endpoint.
pub open spec fn rate_set_setup(ep_addr: u8) -> Seq<u8> {
    seq![0x22u8, 0x01u8, 0u8, 0x01u8, ep_addr, 0u8, 3u8, 0u8]
}

/// The setup packet that reads the sample rate of an endpoint.
pub open spec fn rate_get_setup(ep_addr: u8) -> Seq<u8> {
    seq![0xA2u8, 0x81u8, 0u8, 0x01u8, ep_addr, 0u8, 3u8, 0u8]
}

/// The setup packet that sets the volume of a channel.
pub open spec fn volume_setup(channel: u8, feature_unit_id: u8) -> Seq<u8> {
    seq![0x21u8, 0x01u8, channel, feature_unit_id, 0x02u8, 0u8, 2u8, 0u8]
}

/// The setup packet that mutes a channel or lifts the mute.
pub open spec fn mute_setup(channel: u8, feature_unit_id: u8) -> Seq<u8> {
    seq![0x21u8, 0x01u8, channel, feature_unit_id, 0x01u8, 0u8, 1u8, 0u8]
}

/// The setup packet that reads the device descriptor.
pub open spec fn device_descriptor_setup() -> Seq<u8> {
    seq![0x80u8, 0x06u8, 0u8, 0x01u8, 0u8, 0u8, 0x12u8, 0u8]
}

/// The setup packet that sets the sample rate of an endpoint.
pub fn sample_rate_set_cur_setup(ep_addr: u8) -> (s: [u8; 8])
    ensures
        s@ == rate_set_setup(ep_addr),
{
    let s: [u8; 8] = [0x22, SET_CUR, 0x00, 0x01, ep_addr, 0x00, 0x03, 0x00];
    assert(s@ =~= rate_set_setup(ep_addr));
    s
}

/// The setup packet that reads the sample rate of an endpoint.
pub fn sample_rate_get_cur_setup(ep_addr: u8) -> (s: [u8; 8])
    ensures
        s@ == rate_get_setup(ep_addr),
{
    let s: [u8; 8] = [0xA2, GET_CUR, 0x00, 0x01, ep_addr, 0x00, 0x03, 0x00];
    assert(s@ =~= rate_get_setup(ep_addr));
    s
}

/// The setup packet that sets the volume of a channel.
pub fn volume_set_cur_setup(channel: u8, feature_unit_id: u8) -> (s: [u8; 8])
    ensures
        s@ == volume_setup(channel, feature_unit_id),
{
    let s: [u8; 8] = [
        0x21,
        SET_CUR,
        channel,
        feature_unit_id,
        VOLUME_CONTROL,
        0x00,
        0x02,
        0x00,
    ];
    assert(s@ =~= volume_setup(channel, feature_unit_id));
    s
}

/// The setup packet that mutes a channel or lifts the mute.
pub fn mute_set_cur_setup(channel: u8, feature_unit_id: u8) -> (s: [u8; 8])
    ensures
        s@ == mute_setup(channel, feature_unit_id),
{
    let s: [u8; 8] = [0x21, SET_CUR, channel, feature_unit_id, MUTE_CONTROL, 0x00, 0x01, 0x00];
    assert(s@ =~= mute_setup(channel, feature_unit_id));
    s
}

/// The three bytes of a sample rate, the lowest first.
pub open spec fn rate_bytes(rate: u32) -> Seq<u8> {
    seq![(rate % 256) as u8, (rate / 256 % 256) as u8, (rate / 0x10000 % 256) as u8]
}

/// The sample rate that three bytes stand for, the lowest first.
pub open spec fn rate_of(b: Seq<u8>) -> u32 {
    (b[0] + 256 * b[1] + 0x10000 * b[2]) as u32
}

/// The three bytes of a sample rate, the lowest first.
pub fn encode_sample_rate(rate: u32) -> (b: [u8; 3])
    ensures
        b@ == rate_bytes(rate),
{
    let b: [u8; 3] = [
        (rate % 256) as u8,
        ((rate / 256) % 256) as u8,
        ((rate / 0x10000) % 256) as u8,
    ];
    assert(b@ =~= rate_bytes(rate));
    b
}

/// The sample rate that three bytes stand for, the lowest first.
pub fn decode_sample_rate(data: &[u8; 3]) -> (rate: u32)
    ensures
        rate == rate_of(data@),
{
    data[0] as u32 + 256 * data[1] as u32 + 0x10000 * data[2] as u32
}

/// Three bytes give back the sample rate they were made from, if it fits.
pub proof fn law_sample_rate_round_trip(rate: u32)
    requires
        rate < 0x1000000,
    ensures
        rate_of(rate_bytes(rate)) == rate,
{
}

/// How many packets a transfer of a length takes.
pub open spec fn packets(len: nat, max: nat) -> nat {
    shorter(((len + max - 1) / max as int) as nat, 32)
}

/// The packets of a transfer into the host: all of the same length.
pub open spec fn capture_packets(len: nat, max: nat) -> Seq<IsoPacketDescriptor> {
    Seq::new(
        packets(len, max),
        |i: int|
            IsoPacketDescriptor {
                offset: (i * max) as u32,
                length: max as u32,
                actual_length: 0,
                status: 0,
            },
    )
}

/// The packets of a transfer out of the host: all of the same length, but for
/// the one in which the data ends.
pub open spec fn playback_packets(len: nat, max: nat) -> Seq<IsoPacketDescriptor> {
    Seq::new(
        packets(len, max),
        |i: int|
            IsoPacketDescriptor {
                offset: (i * max) as u32,
                length: shorter((len - i * max) as nat, max) as u32,
                actual_length: 0,
                status: 0,
            },
    )
}

proof fn lemma_packets(len: nat, max: nat)
    requires
        0 < max,
    ensures
        len > 31 * max ==> packets(len, max) == 32,
        len <= 31 * max ==> packets(len, max) == (len + max - 1) / max as int,
        forall|i: int| 0 <= i < packets(len, max) ==> #[trigger] (i * max) < len,
        packets(len, max) <= 32,
{
    let ceil = (len + max - 1) / max as int;
    assert(ceil * max <= len + max - 1 < (ceil + 1) * max) by (nonlinear_arith)
        requires
            0 < max,
            ceil == (len + max - 1) / max as int,
    ;
    assert(ceil >= 0) by (nonlinear_arith)
        requires
            0 < max,
            ceil == (len + max - 1) / max as int,
    ;
    if len > 31 * max {
        assert(ceil >= 32) by (nonlinear_arith)
            requires
                len > 31 * max,
                len + max - 1 < (ceil + 1) * max,
                0 < max,
        ;
    } else {
        assert(ceil <= 32) by (nonlinear_arith)
            requires
                len <= 31 * max,
                ceil * max <= len + max - 1,
                0 < max,
        ;
    }
    assert forall|i: int| 0 <= i < packets(len, max) implies #[trigger] (i * max) < len by {
        assert(i * max < len) by (nonlinear_arith)
            requires
                0 <= i <= ceil - 1,
                ceil * max <= len + max - 1,
                0 < max,
        ;
    }
}

fn packet_count(len: usize, max: u16) -> (n: u32)
    requires
        0 < max,
    ensures
        n == packets(len as nat, max as nat),
        n <= 32,
{
    proof {
        lemma_packets(len as nat, max as nat);
    }
    if len > 31 * max as usize {
        32
    } else {
        ((len + max as usize - 1) / max as usize) as u32
    }
}

/// An imported audio device.
#[derive(Debug)]
pub struct AudioDevice {
    pub link: Link,
    pub ep_playback: Option<u8>,
    pub ep_capture: Option<u8>,
    /// The endpoint of notifications, if there is one.
    pub ep_notify: Option<u8>,
    pub control_interface: u8,
    pub streaming_interface: u8,
    /// Samples per second.
    pub sample_rate: u32,
    pub channels: u8,
    /// Bits per sample.
    pub bit_depth: u8,
    pub max_packet_size: u16,
}

/// The sample rates that are common.
pub open spec fn common_rates() -> Seq<u32> {
    seq![8000u32, 16000u32, 22050u32, 44100u32, 48000u32, 96000u32]
}

/// The sample rates that a device's answer stands for: the one it is set to,
/// then the other common ones.
pub open spec fn rates_of(answer: Seq<u8>) -> Seq<u32> {
    if answer.len() >= 3 {
        seq![rate_of(answer)] + common_rates().filter(|r: u32| r != rate_of(answer))
    } else {
        common_rates()
    }
}

fn common_rate_list() -> (v: Vec<u32>)
    ensures
        v@ == common_rates(),
{
    let v: Vec<u32> = vec![8000, 16000, 22050, 44100, 48000, 96000];
    assert(v@ =~= common_rates());
    v
}

fn rate_list(answer: &Vec<u8>) -> (v: Vec<u32>)
    ensures
        v@ == rates_of(answer@),
{
    let common = common_rate_list();
    if answer.len() < 3 {
        return common;
    }
    let first: [u8; 3] = [answer[0], answer[1], answer[2]];
    let current: u32 = decode_sample_rate(&first);
    assert(current == rate_of(answer@));
    let ghost other = |r: u32| r != current;
    assert(other =~= |r: u32| r != rate_of(answer@));
    let mut v: Vec<u32> = Vec::new();
    v.push(current);
    let mut i: usize = 0;
    while i < common.len()
        invariant
            i <= common@.len(),
            other == (|r: u32| r != current),
            v@ == seq![current] + common@.take(i as int).filter(other),
        decreases common@.len() - i,
    {
        proof {
            reveal(Seq::filter);
            assert(common@.take(i + 1).drop_last() =~= common@.take(i as int));
        }
        if common[i] != current {
            v.push(common[i]);
        }
        i = i + 1;
    }
    assert(common@.take(i as int) =~= common@);
    v
}

/// The endpoint that the controls of the rate speak of: the one that plays, or
/// else the one that captures.
pub open spec fn rate_endpoint(d: AudioDevice) -> Option<u8> {
    match d.ep_playback {
        Some(ep) => Some(ep),
        None => d.ep_capture,
    }
}

impl AudioDevice {
    /// The same device after a submission.
    pub open spec fn submitted(self) -> AudioDevice {
        AudioDevice { link: self.link.after(), ..self }
    }

    /// An isochronous transfer.
    pub open spec fn iso_model(
        self,
        direction: u32,
        endpoint: u8,
        length: u32,
        data: Seq<u8>,
        descriptors: Seq<IsoPacketDescriptor>,
    ) -> CmdSubmitModel {
        CmdSubmitModel {
            header: UsbipHeaderBasic {
                command: Command::CmdSubmit.spec_code(),
                seqnum: self.link.next_seqnum,
                devid: self.link.devid,
                direction,
                ep: (endpoint & 0x0f) as u32,
            },
            transfer_flags: 0,
            transfer_buffer_length: length,
            start_frame: 0,
            number_of_packets: descriptors.len() as u32,
            interval: 1,
            setup: no_setup(),
            transfer_buffer: data,
            iso_packet_descriptors: descriptors,
        }
    }

    /// The device from the server's answer to the import, with the usual
    /// endpoints and interfaces, at 48000 samples of 16 bits per second on two
    /// channels.
    pub fn connect(busid: &str, reply: OpMessage) -> (r: Result<Self, ClientError>)
        ensures
            match reply {
                OpMessage::RepImport(rep) => if rep.status != 0 {
                    r matches Err(ClientError::ImportRejected { busid: b, status }) && b@ == busid@
                        && status == rep.status
                } else {
                    match rep.device {
                        Some(d) => r == Ok::<AudioDevice, ClientError>(
                            AudioDevice {
                                link: Link { devid: devid_of(d), next_seqnum: 1 },
                                ep_playback: Some(DEFAULT_EP_PLAYBACK),
                                ep_capture: Some(DEFAULT_EP_CAPTURE),
                                ep_notify: None,
                                control_interface: 0,
                                streaming_interface: 1,
                                sample_rate: 48000,
                                channels: 2,
                                bit_depth: 16,
                                max_packet_size: 192,
                            },
                        ),
                        None => r matches Err(ClientError::ImportMissingDevice),
                    }
                },
                _ => r matches Err(
                    ClientError::Protocol(
                        crate::protocol::error::ProtocolError::InvalidOpCode(0),
                    ),
                ),
            },
    {
        match Link::connect(busid, reply) {
            Ok((link, _)) => Ok(
                AudioDevice {
                    link,
                    ep_playback: Some(DEFAULT_EP_PLAYBACK),
                    ep_capture: Some(DEFAULT_EP_CAPTURE),
                    ep_notify: None,
                    control_interface: 0,
                    streaming_interface: 1,
                    sample_rate: 48000,
                    channels: 2,
                    bit_depth: 16,
                    max_packet_size: 192,
                },
            ),
            Err(e) => Err(e),
        }
    }

    /// Initialise the device: read its descriptor, to see that it answers.
    pub fn initialize(&mut self) -> (cmd: CmdSubmit)
        ensures
            *final(self) == old(self).submitted(),
            cmd@ == old(self).link.control_in_model(device_descriptor_setup(), 18),
    {
        let setup: [u8; 8] = [0x80, 0x06, 0x00, 0x01, 0x00, 0x00, 0x12, 0x00];
        assert(setup@ =~= device_descriptor_setup());
        self.link.control_in(&setup, 18)
    }

    /// Take the result of a control transfer into the host: its data.
    pub fn control_in_result(&self, msg: &UrbMessage) -> (r: Result<Vec<u8>, ClientError>)
        ensures
            result_means(*msg, DeviceKind::Audio, "control IN transfer"@, r),
    {
        read_ret_submit(msg, DeviceKind::Audio, "control IN transfer")
    }

    /// Take the result of a control transfer out of the host.
    pub fn control_out_result(&self, msg: &UrbMessage) -> (r: Result<(), ClientError>)
        ensures
            match r {
                Ok(_) => msg matches UrbMessage::RetSubmit(ret) && ret.status == 0,
                Err(e) => result_means(
                    *msg,
                    DeviceKind::Audio,
                    "control OUT transfer"@,
                    Err::<Vec<u8>, ClientError>(e),
                ),
            },
    {
        match read_ret_submit(msg, DeviceKind::Audio, "control OUT transfer") {
            Ok(_) => Ok(()),
            Err(e) => Err(e),
        }
    }

    fn iso_submission(
        &mut self,
        direction: u32,
        endpoint: u8,
        length: u32,
        data: Option<&[u8]>,
        descriptors: Vec<IsoPacketDescriptor>,
    ) -> (cmd: CmdSubmit)
        requires
            descriptors@.len() <= 32,
        ensures
            *final(self) == old(self).submitted(),
            cmd@ == old(self).iso_model(
                direction,
                endpoint,
                length,
                match data {
                    Some(d) => d@,
                    None => Seq::empty(),
                },
                descriptors@,
            ),
    {
        let zero: [u8; 8] = [0, 0, 0, 0, 0, 0, 0, 0];
        assert(zero@ =~= no_setup());
        let seqnum: u32 = self.link.take_seqnum();
        let transfer_buffer = match data {
            Some(d) => bytes_copy_from_slice(d),
            None => bytes_new(),
        };
        let number_of_packets: u32 = descriptors.len() as u32;
        CmdSubmit {
            header: UsbipHeaderBasic {
                command: Command::CmdSubmit.code(),
                seqnum,
                devid: self.link.devid,
                direction,
                ep: (endpoint & 0x0f) as u32,
            },
            transfer_flags: 0,
            transfer_buffer_length: length,
            start_frame: 0,
            number_of_packets,
            interval: 1,
            setup: zero,
            transfer_buffer,
            iso_packet_descriptors: descriptors,
        }
    }

    /// Ask for samples: as many packets as a buffer of a length takes.
    pub fn read_audio(&mut self, len: usize) -> (r: Result<CmdSubmit, ClientError>)
        ensures
            match old(self).ep_capture {
                None => {
                    &&& *final(self) == *old(self)
                    &&& r matches Err(e) && is_device_error(
                        e,
                        DeviceKind::Audio,
                        "no capture endpoint configured"@,
                    )
                },
                Some(ep) => if old(self).max_packet_size == 0 {
                    &&& *final(self) == *old(self)
                    &&& r matches Err(e) && is_device_error(
                        e,
                        DeviceKind::Audio,
                        "max_packet_size is zero"@,
                    )
                } else {
                    let max = old(self).max_packet_size as nat;
                    &&& *final(self) == old(self).submitted()
                    &&& r matches Ok(cmd) && cmd@ == old(self).iso_model(
                        1,
                        ep,
                        (packets(len as nat, max) * max) as u32,
                        Seq::empty(),
                        capture_packets(len as nat, max),
                    )
                },
            },
    {
        let ep: u8 = match self.ep_capture {
            Some(ep) => ep,
            None => return Err(ClientError::Audio("no capture endpoint configured".to_owned())),
        };
        if self.max_packet_size == 0 {
            return Err(ClientError::Audio("max_packet_size is zero".to_owned()));
        }
        let max: u32 = self.max_packet_size as u32;
        let n: u32 = packet_count(len, self.max_packet_size);
        assert(0 <= n * max <= 32 * 65535) by (nonlinear_arith)
            requires
                0 <= n <= 32,
                0 <= max <= 65535,
        ;
        let mut descriptors: Vec<IsoPacketDescriptor> = Vec::new();
        let mut i: u32 = 0;
        while i < n
            invariant
                i <= n <= 32,
                max <= 65535,
                descriptors@.len() == i,
                forall|j: int|
                    0 <= j < i ==> #[trigger] descriptors@[j] == (IsoPacketDescriptor {
                        offset: (j * max) as u32,
                        length: max,
                        actual_length: 0,
                        status: 0,
                    }),
            decreases n - i,
        {
            assert(0 <= i * max <= 32 * 65535) by (nonlinear_arith)
                requires
                    0 <= i <= 32,
                    0 <= max <= 65535,
            ;
            descriptors.push(
                IsoPacketDescriptor { offset: i * max, length: max, actual_length: 0, status: 0 },
            );
            i = i + 1;
        }
        assert(descriptors@ =~= capture_packets(len as nat, max as nat));
        Ok(self.iso_submission(1, ep, n * max, None, descriptors))
    }

    /// Take the result of asking for samples: copy what fits, and say how much.
    pub fn read_audio_result(&self, msg: &UrbMessage, buf: &mut [u8]) -> (r: Result<
        usize,
        ClientError,
    >)
        ensures
            match r {
                Ok(n) => {
                    &&& msg matches UrbMessage::RetSubmit(ret) && ret.status == 0 && n == shorter(
                        bytes_seq(ret.transfer_buffer).len(),
                        old(buf)@.len(),
                    ) && final(buf)@ == copied(old(buf)@, bytes_seq(ret.transfer_buffer))
                },
                Err(e) => {
                    &&& result_means(
                        *msg,
                        DeviceKind::Audio,
                        "ISO IN transfer"@,
                        Err::<Vec<u8>, ClientError>(e),
                    )
                    &&& final(buf)@ == old(buf)@
                },
            },
    {
        match read_ret_submit(msg, DeviceKind::Audio, "ISO IN transfer") {
            Ok(data) => Ok(copy_front(buf, &data)),
            Err(e) => Err(e),
        }
    }

    /// Play samples. All of the data is sent; the packets cover as much of it
    /// as they can.
    pub fn write_audio(&mut self, data: &[u8]) -> (r: Result<CmdSubmit, ClientError>)
        ensures
            match old(self).ep_playback {
                None => {
                    &&& *final(self) == *old(self)
                    &&& r matches Err(e) && is_device_error(
                        e,
                        DeviceKind::Audio,
                        "no playback endpoint configured"@,
                    )
                },
                Some(ep) => if old(self).max_packet_size == 0 {
                    &&& *final(self) == *old(self)
                    &&& r matches Err(e) && is_device_error(
                        e,
                        DeviceKind::Audio,
                        "max_packet_size is zero"@,
                    )
                } else {
                    let max = old(self).max_packet_size as nat;
                    &&& *final(self) == old(self).submitted()
                    &&& r matches Ok(cmd) && cmd@ == old(self).iso_model(
                        0,
                        ep,
                        data@.len() as u32,
                        data@,
                        playback_packets(data@.len(), max),
                    )
                },
            },
    {
        let ep: u8 = match self.ep_playback {
            Some(ep) => ep,
            None => return Err(ClientError::Audio("no playback endpoint configured".to_owned())),
        };
        if self.max_packet_size == 0 {
            return Err(ClientError::Audio("max_packet_size is zero".to_owned()));
        }
        let max: usize = self.max_packet_size as usize;
        let len: usize = data.len();
        let n: u32 = packet_count(len, self.max_packet_size);
        let mut descriptors: Vec<IsoPacketDescriptor> = Vec::new();
        let mut offset: usize = 0;
        let mut i: u32 = 0;
        while i < n
            invariant
                i <= n <= 32,
                n == packets(len as nat, max as nat),
                0 < max <= 65535,
                offset == shorter((i * max) as nat, len as nat),
                descriptors@.len() == i,
                forall|j: int|
                    0 <= j < i ==> #[trigger] descriptors@[j] == (IsoPacketDescriptor {
                        offset: (j * max) as u32,
                        length: shorter((len - j * max) as nat, max as nat) as u32,
                        actual_length: 0,
                        status: 0,
                    }),
            decreases n - i,
        {
            proof {
                lemma_packets(len as nat, max as nat);
                let at = i as int;
                assert(at * max < len);
                assert(0 <= i * max <= 32 * 65535) by (nonlinear_arith)
                    requires
                        0 <= i <= 32,
                        0 <= max <= 65535,
                ;
                assert((i + 1) * max == i * max + max) by (nonlinear_arith);
            }
            let left: usize = len - offset;
            let length: usize = if left <= max {
                left
            } else {
                max
            };
            descriptors.push(
                IsoPacketDescriptor {
                    offset: offset as u32,
                    length: length as u32,
                    actual_length: 0,
                    status: 0,
                },
            );
            offset = offset + length;
            i = i + 1;
        }
        assert(descriptors@ =~= playback_packets(len as nat, max as nat));
        Ok(self.iso_submission(0, ep, len as u32, Some(data), descriptors))
    }

    /// Take the result of playing `len` bytes of samples: all of them were
    /// played.
    pub fn write_audio_result(&self, msg: &UrbMessage, len: usize) -> (r: Result<
        usize,
        ClientError,
    >)
        ensures
            match r {
                Ok(n) => n == len && (msg matches UrbMessage::RetSubmit(ret) && ret.status == 0),
                Err(e) => result_means(
                    *msg,
                    DeviceKind::Audio,
                    "ISO OUT transfer"@,
                    Err::<Vec<u8>, ClientError>(e),
                ),
            },
    {
        match read_ret_submit(msg, DeviceKind::Audio, "ISO OUT transfer") {
            Ok(_) => Ok(len),
            Err(e) => Err(e),
        }
    }

    /// Submit a sample rate.
    pub fn set_sample_rate(&mut self, rate: u32) -> (r: Result<CmdSubmit, ClientError>)
        ensures
            match rate_endpoint(*old(self)) {
                None => {
                    &&& *final(self) == *old(self)
                    &&& r matches Err(e) && is_device_error(
                        e,
                        DeviceKind::Audio,
                        "no audio endpoint configured"@,
                    )
                },
                Some(ep) => {
                    &&& *final(self) == old(self).submitted()
                    &&& r matches Ok(cmd) && cmd@ == old(self).link.control_out_model(
                        rate_set_setup(ep),
                        rate_bytes(rate),
                    )
                },
            },
    {
        match self.endpoint_of_rate() {
            Some(ep) => {
                let setup = sample_rate_set_cur_setup(ep);
                let data = encode_sample_rate(rate);
                Ok(self.link.control_out(&setup, data.as_slice()))
            },
            None => Err(ClientError::Audio("no audio endpoint configured".to_owned())),
        }
    }

    /// Take the result of submitting a sample rate: where it succeeded, the
    /// device has the rate.
    pub fn sample_rate_set(&mut self, rate: u32, msg: &UrbMessage) -> (r: Result<(), ClientError>)
        ensures
            match r {
                Ok(_) => {
                    &&& msg matches UrbMessage::RetSubmit(ret) && ret.status == 0
                    &&& *final(self) == (AudioDevice { sample_rate: rate, ..*old(self) })
                },
                Err(e) => {
                    &&& result_means(
                        *msg,
                        DeviceKind::Audio,
                        "control OUT transfer"@,
                        Err::<Vec<u8>, ClientError>(e),
                    )
                    &&& *final(self) == *old(self)
                },
            },
    {
        match self.control_out_result(msg) {
            Ok(_) => {
                self.sample_rate = rate;
                Ok(())
            },
            Err(e) => Err(e),
        }
    }

    fn endpoint_of_rate(&self) -> (ep: Option<u8>)
        ensures
            ep == rate_endpoint(*self),
    {
        match self.ep_playback {
            Some(ep) => Some(ep),
            None => self.ep_capture,
        }
    }

    /// Ask for the sample rate.
    pub fn get_sample_rates(&mut self) -> (r: Result<CmdSubmit, ClientError>)
        ensures
            match rate_endpoint(*old(self)) {
                None => {
                    &&& *final(self) == *old(self)
                    &&& r matches Err(e) && is_device_error(
                        e,
                        DeviceKind::Audio,
                        "no audio endpoint configured"@,
                    )
                },
                Some(ep) => {
                    &&& *final(self) == old(self).submitted()
                    &&& r matches Ok(cmd) && cmd@ == old(self).link.control_in_model(
                        rate_get_setup(ep),
                        3,
                    )
                },
            },
    {
        match self.endpoint_of_rate() {
            Some(ep) => {
                let setup = sample_rate_get_cur_setup(ep);
                Ok(self.link.control_in(&setup, 3))
            },
            None => Err(ClientError::Audio("no audio endpoint configured".to_owned())),
        }
    }

    /// Take the result of asking for the sample rate: the rates to choose from.
    pub fn sample_rates_result(&self, msg: &UrbMessage) -> (r: Result<Vec<u32>, ClientError>)
        ensures
            match r {
                Ok(rates) => msg matches UrbMessage::RetSubmit(ret) && ret.status == 0 && rates@
                    == rates_of(bytes_seq(ret.transfer_buffer)),
                Err(e) => result_means(
                    *msg,
                    DeviceKind::Audio,
                    "control IN transfer"@,
                    Err::<Vec<u8>, ClientError>(e),
                ),
            },
    {
        match self.control_in_result(msg) {
            Ok(answer) => Ok(rate_list(&answer)),
            Err(e) => Err(e),
        }
    }

    /// Submit the volume of a channel, of which 0 stands for all.
    pub fn set_volume(&mut self, channel: u8, volume: u16) -> (cmd: CmdSubmit)
        ensures
            *final(self) == old(self).submitted(),
            cmd@ == old(self).link.control_out_model(
                volume_setup(channel, DEFAULT_FEATURE_UNIT_ID),
                seq![(volume % 256) as u8, (volume / 256) as u8],
            ),
    {
        let setup = volume_set_cur_setup(channel, DEFAULT_FEATURE_UNIT_ID);
        let data: [u8; 2] = [(volume % 256) as u8, (volume / 256) as u8];
        assert(data@ =~= seq![(volume % 256) as u8, (volume / 256) as u8]);
        self.link.control_out(&setup, data.as_slice())
    }

    /// Submit the mute of a channel, of which 0 stands for all.
    pub fn set_mute(&mut self, channel: u8, mute: bool) -> (cmd: CmdSubmit)
        ensures
            *final(self) == old(self).submitted(),
            cmd@ == old(self).link.control_out_model(
                mute_setup(channel, DEFAULT_FEATURE_UNIT_ID),
                seq![
                    if mute {
                        1u8
                    } else {
                        0u8
                    },
                ],
            ),
    {
        let setup = mute_set_cur_setup(channel, DEFAULT_FEATURE_UNIT_ID);
        let on: u8 = if mute {
            1
        } else {
            0
        };
        let data: [u8; 1] = [on];
        assert(data@ =~= seq![on]);
        self.link.control_out(&setup, data.as_slice())
    }

    /// Samples per second.
    pub fn sample_rate(&self) -> (v: u32)
        ensures
            v == self.sample_rate,
    {
        self.sample_rate
    }

    /// Channels.
    pub fn channels(&self) -> (v: u8)
        ensures
            v == self.channels,
    {
        self.channels
    }

    /// Bits per sample.
    pub fn bit_depth(&self) -> (v: u8)
        ensures
            v == self.bit_depth,
    {
        self.bit_depth
    }
}

/// Packets lie end to end in a buffer, from its start: each begins where the one
/// before it ends.
pub open spec fn end_to_end(ds: Seq<IsoPacketDescriptor>) -> bool {
    &&& ds.len() > 0 ==> ds[0].offset == 0
    &&& forall|i: int|
        #![trigger ds[i]]
        0 < i < ds.len() ==> ds[i].offset == ds[i - 1].offset + ds[i - 1].length
}

proof fn lemma_place(i: int, max: nat)
    requires
        0 <= i <= 32,
        max <= 65535,
    ensures
        0 <= i * max <= 32 * 65535,
        (i + 1) * max == i * max + max,
        i > 0 ==> i * max == (i - 1) * max + max,
{
    assert(0 <= i * max <= 32 * 65535) by (nonlinear_arith)
        requires
            0 <= i <= 32,
            0 <= max <= 65535,
    ;
    assert((i + 1) * max == i * max + max) by (nonlinear_arith);
    assert(i * max == (i - 1) * max + max) by (nonlinear_arith);
}

/// As many packets as take the data, or all that there may be.
proof fn lemma_enough_packets(len: nat, max: nat)
    requires
        0 < max <= 65535,
    ensures
        len <= 32 * max ==> {
            &&& packets(len, max) * max >= len
            &&& len > 0 ==> 0 < packets(len, max) && (packets(len, max) - 1) * max < len
        },
        len > 32 * max ==> packets(len, max) == 32,
        len == 0 ==> packets(len, max) == 0,
{
    lemma_packets(len, max);
    let n = packets(len, max);
    let ceil = (len + max - 1) / max as int;
    assert(ceil * max <= len + max - 1 < (ceil + 1) * max) by (nonlinear_arith)
        requires
            0 < max,
            ceil == (len + max - 1) / max as int,
    ;
    if len <= 31 * max {
        assert(ceil * max >= len) by (nonlinear_arith)
            requires
                len + max - 1 < (ceil + 1) * max,
                0 < max,
        ;
        if len > 0 {
            assert(ceil > 0) by (nonlinear_arith)
                requires
                    len > 0,
                    len + max - 1 < (ceil + 1) * max,
                    0 < max,
            ;
            assert((ceil - 1) * max < len) by (nonlinear_arith)
                requires
                    ceil * max <= len + max - 1,
            ;
        } else {
            assert(ceil == 0) by (nonlinear_arith)
                requires
                    len == 0,
                    ceil * max <= len + max - 1,
                    len + max - 1 < (ceil + 1) * max,
                    0 < max,
            ;
        }
    }
}

/// Samples that are played go out of the host with all of their data, in packets
/// that lie end to end in it: none is longer than a packet may be, only the last
/// may be shorter, and where 32 packets take the data, the last ends where the
/// data ends.
pub proof fn law_played(dev: &mut AudioDevice, data: &[u8], cmd: CmdSubmit)
    requires
        call_ensures(AudioDevice::write_audio, (dev, data), Ok(cmd)),
        data@.len() <= u32::MAX,
    ensures
        ({
            let ds = cmd.iso_packet_descriptors@;
            let max = old(dev).max_packet_size;
            &&& old(dev).ep_playback is Some
            &&& max > 0
            &&& cmd.header.direction == 0
            &&& cmd.header.ep == old(dev).ep_playback->Some_0 % 16
            &&& cmd.header.command == 1
            &&& cmd.header.seqnum == old(dev).link.next_seqnum
            &&& cmd.header.devid == old(dev).link.devid
            &&& bytes_seq(cmd.transfer_buffer) == data@
            &&& cmd.transfer_buffer_length == data@.len()
            &&& cmd.number_of_packets == ds.len()
            &&& cmd.interval == 1
            &&& ds.len() <= 32
            &&& end_to_end(ds)
            &&& forall|i: int|
                #![trigger ds[i]]
                0 <= i < ds.len() ==> {
                    &&& 0 < ds[i].length <= max
                    &&& i < ds.len() - 1 ==> ds[i].length == max
                    &&& ds[i].actual_length == 0
                    &&& ds[i].status == 0
                }
            &&& 0 < data@.len() <= 32 * max ==> ds.len() > 0 && ds.last().offset
                + ds.last().length == data@.len()
            &&& data@.len() > 32 * max ==> ds.len() == 32 && ds.last().length == max
            &&& data@.len() == 0 ==> ds.len() == 0
        }),
{
    let ds = cmd.iso_packet_descriptors@;
    let max = old(dev).max_packet_size as nat;
    let len = data@.len();
    let ep = old(dev).ep_playback->Some_0;
    crate::client::transfer::lemma_endpoint_number(ep);
    assert(ds == playback_packets(len, max));
    lemma_packets(len, max);
    lemma_enough_packets(len, max);
    let n = packets(len, max) as int;
    assert forall|i: int| #![trigger ds[i]] 0 <= i < ds.len() implies {
        &&& ds[i].offset == i * max
        &&& 0 < ds[i].length <= max
        &&& i < ds.len() - 1 ==> ds[i].length == max
        &&& ds[i].offset + ds[i].length == shorter((i * max + max) as nat, len)
        &&& ds[i].actual_length == 0
        &&& ds[i].status == 0
    } by {
        lemma_place(i, max);
        assert(i * max < len);
        if i < n - 1 {
            let k = i + 1;
            assert(k * max < len);
        }
    }
    assert forall|i: int| #![trigger ds[i]] 0 < i < ds.len() implies ds[i].offset == ds[i
        - 1].offset + ds[i - 1].length by {
        lemma_place(i, max);
        assert(ds[i - 1].length == max);
    }
    if n > 0 {
        lemma_place(n - 1, max);
        assert(ds.last() == ds[n - 1]);
        if len > 32 * max {
            assert(ds[31].length == max);
        }
    } else {
        assert(len == 0 || packets(len, max) > 0);
    }
    if ds.len() > 0 {
        assert(ds[0].offset == 0 * max);
    }
}

/// Samples that are captured come into the host, without data of its own, in
/// packets of full length that lie end to end and take together what is asked
/// for: no less than the buffer, where 32 packets take it.
pub proof fn law_captured(dev: &mut AudioDevice, len: usize, cmd: CmdSubmit)
    requires
        call_ensures(AudioDevice::read_audio, (dev, len), Ok(cmd)),
    ensures
        ({
            let ds = cmd.iso_packet_descriptors@;
            let max = old(dev).max_packet_size;
            &&& old(dev).ep_capture is Some
            &&& max > 0
            &&& cmd.header.direction == 1
            &&& cmd.header.ep == old(dev).ep_capture->Some_0 % 16
            &&& cmd.header.command == 1
            &&& cmd.header.seqnum == old(dev).link.next_seqnum
            &&& cmd.header.devid == old(dev).link.devid
            &&& bytes_seq(cmd.transfer_buffer).len() == 0
            &&& cmd.number_of_packets == ds.len()
            &&& cmd.interval == 1
            &&& ds.len() <= 32
            &&& end_to_end(ds)
            &&& forall|i: int|
                #![trigger ds[i]]
                0 <= i < ds.len() ==> ds[i].length == max && ds[i].actual_length == 0
                    && ds[i].status == 0
            &&& ds.len() > 0 ==> cmd.transfer_buffer_length == ds.last().offset + ds.last().length
            &&& ds.len() == 0 ==> cmd.transfer_buffer_length == 0
            &&& len <= 32 * max ==> cmd.transfer_buffer_length >= len
                && cmd.transfer_buffer_length < len + max
            &&& len > 32 * max ==> ds.len() == 32
        }),
{
    let ds = cmd.iso_packet_descriptors@;
    let max = old(dev).max_packet_size as nat;
    let ep = old(dev).ep_capture->Some_0;
    crate::client::transfer::lemma_endpoint_number(ep);
    assert(ds == capture_packets(len as nat, max));
    lemma_packets(len as nat, max);
    lemma_enough_packets(len as nat, max);
    let n = packets(len as nat, max) as int;
    lemma_place(n, max);
    assert forall|i: int| #![trigger ds[i]] 0 <= i < ds.len() implies ds[i].offset == i * max by {
        lemma_place(i, max);
    }
    assert forall|i: int| #![trigger ds[i]] 0 < i < ds.len() implies ds[i].offset == ds[i
        - 1].offset + ds[i - 1].length by {
        lemma_place(i, max);
    }
    if n > 0 {
        assert(ds.last() == ds[n - 1]);
        assert(ds[0].offset == 0 * max);
    } else {
        assert(0 * max == 0);
    }
    assert(n * max - max == (n - 1) * max) by (nonlinear_arith);
}

/// Samples are played or captured exactly where there is an endpoint for it and
/// packets have a size.
pub proof fn law_audio_refused(
    out: &mut AudioDevice,
    data: &[u8],
    played: Result<CmdSubmit, ClientError>,
    inward: &mut AudioDevice,
    len: usize,
    captured: Result<CmdSubmit, ClientError>,
)
    requires
        call_ensures(AudioDevice::write_audio, (out, data), played),
        call_ensures(AudioDevice::read_audio, (inward, len), captured),
    ensures
        played is Ok <==> old(out).ep_playback is Some && old(out).max_packet_size > 0,
        played is Err ==> *final(out) == *old(out),
        captured is Ok <==> old(inward).ep_capture is Some && old(inward).max_packet_size > 0,
        captured is Err ==> *final(inward) == *old(inward),
{
}

/// The sample rate is three bytes, the lowest first, written and read.
pub proof fn law_sample_rate_bytes(rate: u32, b: [u8; 3], d: [u8; 3], read: u32)
    requires
        rate < 0x1000000,
        call_ensures(encode_sample_rate, (rate,), b),
        call_ensures(decode_sample_rate, (&d,), read),
    ensures
        rate == b@[0] + 256 * (b@[1] + 256 * b@[2]),
        read == d@[0] + 256 * (d@[1] + 256 * d@[2]),
{
}

/// The requests of the sample rate go to an endpoint and carry three bytes; that
/// which reads has the top bit of its first two bytes set.
pub proof fn law_rate_requests(ep: u8, set: [u8; 8], get: [u8; 8])
    requires
        call_ensures(sample_rate_set_cur_setup, (ep,), set),
        call_ensures(sample_rate_get_cur_setup, (ep,), get),
    ensures
        set@ == seq![0x22u8, 0x01u8, 0x00u8, 0x01u8, ep, 0x00u8, 0x03u8, 0x00u8],
        get@[0] == set@[0] + 0x80,
        get@[1] == set@[1] + 0x80,
        forall|i: int| 2 <= i < 8 ==> #[trigger] get@[i] == set@[i],
{
}

/// The requests of volume and mute differ in the control and in how many bytes
/// follow, and name the channel and the unit.
pub proof fn law_feature_requests(channel: u8, unit: u8, volume: [u8; 8], mute: [u8; 8])
    requires
        call_ensures(volume_set_cur_setup, (channel, unit), volume),
        call_ensures(mute_set_cur_setup, (channel, unit), mute),
    ensures
        volume@ == seq![0x21u8, 0x01u8, channel, unit, 0x02u8, 0x00u8, 0x02u8, 0x00u8],
        mute@ == seq![0x21u8, 0x01u8, channel, unit, 0x01u8, 0x00u8, 0x01u8, 0x00u8],
{
}

/// The volume of a channel is sent as two bytes, the lowest first; its mute as
/// one, which is set exactly to mute.
pub proof fn law_volume_and_mute(
    a: &mut AudioDevice,
    channel: u8,
    volume: u16,
    set: CmdSubmit,
    b: &mut AudioDevice,
    mute: bool,
    muted: CmdSubmit,
)
    requires
        call_ensures(AudioDevice::set_volume, (a, channel, volume), set),
        call_ensures(AudioDevice::set_mute, (b, channel, mute), muted),
    ensures
        set.header.direction == 0,
        set.header.ep == 0,
        set.setup@[2] == channel,
        set.setup@[4] == 0x02,
        bytes_seq(set.transfer_buffer).len() == 2,
        bytes_seq(set.transfer_buffer)[0] + 256 * bytes_seq(set.transfer_buffer)[1] == volume,
        set.transfer_buffer_length == 2,
        muted.header.direction == 0,
        muted.header.ep == 0,
        muted.setup@[2] == channel,
        muted.setup@[4] == 0x01,
        bytes_seq(muted.transfer_buffer).len() == 1,
        bytes_seq(muted.transfer_buffer)[0] == 1 <==> mute,
        bytes_seq(muted.transfer_buffer)[0] == 0 <==> !mute,
        muted.transfer_buffer_length == 1,
{
}

/// The sample rate is set and read on the endpoint that plays, or else on the
/// one that captures.
pub proof fn law_rate_endpoint(
    a: &mut AudioDevice,
    rate: u32,
    set: Result<CmdSubmit, ClientError>,
    b: &mut AudioDevice,
    got: Result<CmdSubmit, ClientError>,
)
    requires
        rate < 0x1000000,
        call_ensures(AudioDevice::set_sample_rate, (a, rate), set),
        call_ensures(AudioDevice::get_sample_rates, (b,), got),
    ensures
        set is Ok <==> old(a).ep_playback is Some || old(a).ep_capture is Some,
        set matches Ok(cmd) ==> {
            let d = bytes_seq(cmd.transfer_buffer);
            &&& cmd.header.direction == 0
            &&& cmd.header.ep == 0
            &&& cmd.setup@[0] == 0x22
            &&& (old(a).ep_playback matches Some(ep) ==> cmd.setup@[4] == ep)
            &&& (old(a).ep_playback is None ==> cmd.setup@[4] == old(a).ep_capture->Some_0)
            &&& d.len() == 3
            &&& d[0] + 256 * (d[1] + 256 * d[2]) == rate
        },
        got is Ok <==> old(b).ep_playback is Some || old(b).ep_capture is Some,
        got matches Ok(cmd) ==> {
            &&& cmd.header.direction == 1
            &&& cmd.header.ep == 0
            &&& cmd.setup@[0] == 0xA2
            &&& (old(b).ep_playback matches Some(ep) ==> cmd.setup@[4] == ep)
            &&& (old(b).ep_playback is None ==> cmd.setup@[4] == old(b).ep_capture->Some_0)
            &&& cmd.transfer_buffer_length == 3
        },
{
}

/// The rates to choose from are the one that the device is set to, first, and
/// every other common one.
pub proof fn law_rates_to_choose(dev: AudioDevice, msg: UrbMessage, rates: Vec<u32>)
    requires
        call_ensures(AudioDevice::sample_rates_result, (&dev, &msg), Ok(rates)),
        msg matches UrbMessage::RetSubmit(ret) && bytes_seq(ret.transfer_buffer).len() >= 3,
    ensures
        ({
            let b = bytes_seq(msg->RetSubmit_0.transfer_buffer);
            &&& rates@.len() > 0
            &&& rates@[0] == b[0] + 256 * (b[1] + 256 * b[2])
            &&& forall|r: u32|
                r == 8000 || r == 16000 || r == 22050 || r == 44100 || r == 48000 || r == 96000
                    ==> #[trigger] rates@.contains(r)
        }),
{
    let b = bytes_seq(msg->RetSubmit_0.transfer_buffer);
    let now = rate_of(b);
    let common = common_rates();
    let keep = |r: u32| r != now;
    let others = common.filter(keep);
    assert(rates@ == seq![now] + others);
    assert(rates@[0] == now);
    assert forall|r: u32|
        r == 8000 || r == 16000 || r == 22050 || r == 44100 || r == 48000 || r == 96000 implies
    #[trigger] rates@.contains(r) by {
        let i: int = if r == 8000 {
            0
        } else if r == 16000 {
            1
        } else if r == 22050 {
            2
        } else if r == 44100 {
            3
        } else if r == 48000 {
            4
        } else {
            5
        };
        assert(common[i] == r);
        if r == now {
            assert(rates@[0] == r);
        } else {
            assert(keep(common[i]));
            common.lemma_filter_contains(keep, i);
            let k = others.index_of(r);
            assert(rates@[k + 1] == r);
        }
    }
}

/// What was captured is copied to the front of the buffer as far as it fits, and
/// what was played counts whole, where the result has status zero; every other
/// result is an error and leaves the buffer as it was.
pub proof fn law_audio_results(
    a: AudioDevice,
    msg: UrbMessage,
    buf: &mut [u8],
    len: usize,
    read: Result<usize, ClientError>,
    written: Result<usize, ClientError>,
)
    requires
        call_ensures(AudioDevice::read_audio_result, (&a, &msg, buf), read),
        call_ensures(AudioDevice::write_audio_result, (&a, &msg, len), written),
    ensures
        read is Ok <==> (msg matches UrbMessage::RetSubmit(ret) && ret.status == 0),
        written is Ok <==> (msg matches UrbMessage::RetSubmit(ret) && ret.status == 0),
        written matches Ok(n) ==> n == len,
        final(buf)@.len() == old(buf)@.len(),
        read is Err ==> final(buf)@ == old(buf)@,
        read matches Ok(n) ==> {
            let data = bytes_seq(msg->RetSubmit_0.transfer_buffer);
            &&& n <= data.len() && n <= old(buf)@.len()
            &&& n == data.len() || n == old(buf)@.len()
            &&& forall|i: int| 0 <= i < n ==> #[trigger] final(buf)@[i] == data[i]
            &&& forall|i: int|
                n <= i < old(buf)@.len() ==> #[trigger] final(buf)@[i] == old(buf)@[i]
        },
{
}

/// The device has a rate once the result of setting it has status zero; after
/// every other result it has the rate that it had.
pub proof fn law_rate_taken(
    a: &mut AudioDevice,
    rate: u32,
    msg: UrbMessage,
    r: Result<(), ClientError>,
)
    requires
        call_ensures(AudioDevice::sample_rate_set, (a, rate, &msg), r),
    ensures
        r is Ok <==> (msg matches UrbMessage::RetSubmit(ret) && ret.status == 0),
        r is Ok ==> final(a).sample_rate == rate,
        r is Err ==> final(a).sample_rate == old(a).sample_rate,
        final(a).link == old(a).link,
{
}

} // verus!
