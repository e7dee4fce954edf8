//! Network devices: Ethernet frames over bulk transfers, bare or in blocks with
//! headers.

use vstd::prelude::*;
use vstd::slice::{slice_subrange, slice_to_vec};
use vstd::string::*;

use crate::client::engine::devid_of;
use crate::client::error::ClientError;
use crate::client::transfer::{
    asks, is_device_error, lemma_endpoint_number, read_ret_submit, result_means, sends, setup_stands,
    DeviceKind, Link,
};
use crate::endian::{
    le16, le16_at, le32, le32_at, lemma_le16_at, lemma_le32_at, push_le16, push_le32, read_le16,
    read_le32,
};
use crate::protocol::buf::bytes_seq;
use crate::protocol::discovery::OpMessage;
use crate::protocol::urb::{CmdSubmit, UrbMessage};
use crate::scan::{
    digit_value, digits_numeral, numeral, parse_numeral, pieces, split, split_on, Numeral,
};
use crate::text::{
    chars_of, decimal, decimal_string, digit_char_upper, hex_digits_upper, hex_string_upper,
    string_of,
};

verus! {

/// The endpoint that data goes to.
pub const DEFAULT_EP_DATA_OUT: u8 = 0x02;

/// The endpoint that data comes from.
pub const DEFAULT_EP_DATA_IN: u8 = 0x81;

/// A request of the class out of the host, to an interface.
pub const CDC_REQUEST_TYPE: u8 = 0x21;

/// The request to set the packet filter.
pub const SET_ETHERNET_PACKET_FILTER: u8 = 0x43;

/// The largest segment.
pub const DEFAULT_MAX_SEGMENT_SIZE: u16 = 1514;

/// The signature of a block's header.
pub const NTH16_SIGNATURE: u32 = 0x484D434E;

/// The signature of a table of datagrams.
pub const NDP16_SIGNATURE: u32 = 0x304D434E;

/// Size of a block's header.
pub const NTH16_HEADER_SIZE: usize = 12;

/// Size of a table of one datagram.
pub const NDP16_MIN_SIZE: usize = 16;

/// Take multicast packets, all of them.
pub const PACKET_TYPE_ALL_MULTICAST: u16 = 0x0004;

/// Take packets to the device's own address.
pub const PACKET_TYPE_DIRECTED: u16 = 0x0001;

/// Take broadcast packets.
pub const PACKET_TYPE_BROADCAST: u16 = 0x0002;

/// Take multicast packets to addresses on a list.
pub const PACKET_TYPE_MULTICAST: u16 = 0x0010;

/// Take every packet.
pub const PACKET_TYPE_PROMISCUOUS: u16 = 0x0008;

/// Take packets to the device's own address, broadcast, and multicast to
/// addresses on a list.
pub const DEFAULT_PACKET_FILTER: u16 = 0x0013;

/// The default filter takes exactly the packets of three kinds.
pub proof fn law_default_filter()
    ensures
        DEFAULT_PACKET_FILTER == PACKET_TYPE_DIRECTED | PACKET_TYPE_BROADCAST
            | PACKET_TYPE_MULTICAST,
{
    assert(0x0013u16 == 0x0001u16 | 0x0002u16 | 0x0010u16) by (bit_vector);
}

/// How frames are sent.
#[derive(Debug, Clone, Copy, PartialEq, Eq, Structural)]
pub enum NetworkProtocol {
    /// Bare.
    Ecm,
    /// In blocks with headers.
    Ncm,
}

/// An imported network device.
#[derive(Debug)]
pub struct NetworkDevice {
    pub link: Link,
    pub ep_data_in: u8,
    pub ep_data_out: u8,
    /// The endpoint of notifications, if there is one.
    pub ep_notify: Option<u8>,
    pub protocol: NetworkProtocol,
    pub mac_address: [u8; 6],
    pub max_segment_size: u16,
    pub control_interface: u8,
}

/// A frame in a block: the block's header, a table of one datagram, and the
/// frame. The lengths in the headers have 16 bits, so a frame of more than 65507
/// bytes has no block.
pub open spec fn ntb_of(frame: Seq<u8>) -> Seq<u8> {
    let length = frame.len() as u16;
    le32(NTH16_SIGNATURE) + le16(12) + le16(0) + le16((length + 28) as u16) + le16(12) + le32(
        NDP16_SIGNATURE,
    ) + le16(16) + le16(0) + le16(28) + le16(length) + le16(0) + le16(0) + frame
}

/// The first frame in a block, or the text of the error.
pub open spec fn frame_of(b: Seq<u8>) -> Result<Seq<u8>, Seq<char>> {
    if b.len() < 12 {
        Err("NTB too short for NTH16 header"@)
    } else if le32_at(b, 0) != NTH16_SIGNATURE {
        Err("invalid NTH16 signature: 0x"@ + hex_digits_upper(le32_at(b, 0) as nat, 8))
    } else {
        let table = le16_at(b, 10) as int;
        if table + 16 > b.len() {
            Err("NTB too short for NDP16 header"@)
        } else if le32_at(b, table) != NDP16_SIGNATURE {
            Err("invalid NDP16 signature: 0x"@ + hex_digits_upper(le32_at(b, table) as nat, 8))
        } else {
            let index = le16_at(b, table + 8) as int;
            let length = le16_at(b, table + 10) as int;
            if index == 0 || length == 0 {
                Err("NDP16 contains no datagrams"@)
            } else if index + length > b.len() {
                Err(
                    "datagram extends past NTB: offset="@ + decimal(index as nat) + ", len="@
                        + decimal(length as nat) + ", total="@ + decimal(b.len()),
                )
            } else {
                Ok(b.subrange(index, index + length))
            }
        }
    }
}

/// A block gives back the frame it was made for.
pub proof fn law_ntb_round_trip(frame: Seq<u8>)
    requires
        0 < frame.len() <= 65507,
    ensures
        frame_of(ntb_of(frame)) == Ok::<Seq<u8>, Seq<char>>(frame),
        ntb_of(frame).len() == 28 + frame.len(),
{
    let b = ntb_of(frame);
    let length = frame.len() as u16;
    assert(b.subrange(0, 4) =~= le32(NTH16_SIGNATURE));
    assert(b.subrange(10, 12) =~= le16(12));
    assert(b.subrange(12, 16) =~= le32(NDP16_SIGNATURE));
    assert(b.subrange(20, 22) =~= le16(28));
    assert(b.subrange(22, 24) =~= le16(length));
    lemma_le32_at(b, 0, NTH16_SIGNATURE);
    lemma_le16_at(b, 10, 12);
    lemma_le32_at(b, 12, NDP16_SIGNATURE);
    lemma_le16_at(b, 20, 28);
    lemma_le16_at(b, 22, length);
    assert(b.subrange(28, 28 + length) =~= frame);
}

/// The setup packet that sets the packet filter.
pub open spec fn packet_filter_setup(interface: u8, filter: u16) -> Seq<u8> {
    seq![
        0x21u8,
        0x43u8,
        (filter % 256) as u8,
        (filter / 256) as u8,
        interface,
        0u8,
        0u8,
        0u8,
    ]
}

/// The setup packet that sets the packet filter.
pub fn build_set_packet_filter_setup(interface: u8, filter: u16) -> (s: [u8; 8])
    ensures
        s@ == packet_filter_setup(interface, filter),
{
    let s: [u8; 8] = [
        CDC_REQUEST_TYPE,
        SET_ETHERNET_PACKET_FILTER,
        (filter % 256) as u8,
        (filter / 256) as u8,
        interface,
        0x00,
        0x00,
        0x00,
    ];
    assert(s@ =~= packet_filter_setup(interface, filter));
    s
}

/// The byte that two hexadecimal digits, or one, stand for.
pub open spec fn hex_byte(part: Seq<char>) -> Option<u8> {
    match numeral(part, 16, 255) {
        Numeral::Value(v) => Some(v as u8),
        _ => None,
    }
}

/// What a hardware address means as text: six bytes, or the text of the error,
/// which names the first part that is no byte.
pub open spec fn mac_of(s: Seq<char>) -> Result<Seq<u8>, Seq<char>> {
    let parts = split_on(s, ':');
    if parts.len() != 6 {
        Err("invalid MAC address format: "@ + s)
    } else {
        mac_bytes(parts)
    }
}

/// The bytes of parts, or the text of the error on the first that is none.
pub open spec fn mac_bytes(parts: Seq<Seq<char>>) -> Result<Seq<u8>, Seq<char>>
    decreases parts.len(),
{
    if parts.len() == 0 {
        Ok(Seq::empty())
    } else {
        match mac_bytes(parts.drop_last()) {
            Ok(front) => match hex_byte(parts.last()) {
                Some(b) => Ok(front.push(b)),
                None => Err("invalid hex byte in MAC address: "@ + parts.last()),
            },
            Err(text) => Err(text),
        }
    }
}

proof fn lemma_mac_error(parts: Seq<Seq<char>>, n: int)
    requires
        0 <= n <= parts.len(),
        mac_bytes(parts.take(n)) is Err,
    ensures
        mac_bytes(parts) == mac_bytes(parts.take(n)),
    decreases parts.len(),
{
    if n == parts.len() {
        assert(parts.take(n) =~= parts);
    } else {
        assert(parts.drop_last().take(n) =~= parts.take(n));
        lemma_mac_error(parts.drop_last(), n);
    }
}

/// The six bytes of a hardware address, from a text of hexadecimal bytes with
/// colons between them.
pub fn parse_mac_address(s: &str) -> (r: Result<[u8; 6], ClientError>)
    ensures
        match mac_of(s@) {
            Ok(b) => r matches Ok(mac) && mac@ == b,
            Err(text) => r matches Err(e) && is_device_error(e, DeviceKind::Network, text),
        },
{
    let parts: Vec<Vec<char>> = split(&chars_of(s), ':');
    if parts.len() != 6 {
        return Err(
            ClientError::Network("invalid MAC address format: ".to_owned().concat(s)),
        );
    }
    let ghost names = pieces(parts@);
    let mut mac: [u8; 6] = [0, 0, 0, 0, 0, 0];
    let mut i: usize = 0;
    assert(names.take(0) =~= Seq::empty());
    assert(mac@.take(0) =~= Seq::empty());
    while i < 6
        invariant
            i <= 6,
            parts@.len() == 6,
            names == pieces(parts@),
            mac_of(s@) == mac_bytes(names),
            mac_bytes(names.take(i as int)) == Ok::<Seq<u8>, Seq<char>>(mac@.take(i as int)),
        decreases 6 - i,
    {
        proof {
            crate::scan::lemma_numeral_bound(names[i as int], 16, 255);
            assert(names.take(i + 1).drop_last() =~= names.take(i as int));
            assert(names.take(i + 1).last() == names[i as int]);
            assert(names[i as int] == parts@[i as int]@);
        }
        match parse_numeral(&parts[i], 16, 255) {
            Numeral::Value(v) => {
                let ghost before = mac@;
                mac[i] = v as u8;
                assert(mac@.take(i + 1) =~= before.take(i as int).push(v as u8));
            },
            _ => {
                proof {
                    lemma_mac_error(names, i + 1);
                }
                return Err(
                    ClientError::Network(
                        "invalid hex byte in MAC address: ".to_owned().concat(
                            string_of(&parts[i]).as_str(),
                        ),
                    ),
                );
            },
        }
        i = i + 1;
    }
    assert(names.take(6) =~= names);
    assert(mac@.take(6) =~= mac@);
    Ok(mac)
}

/// The text of a hardware address: six hexadecimal bytes with colons between
/// them.
pub open spec fn mac_text(mac: Seq<u8>) -> Seq<char> {
    hex_digits_upper(mac[0] as nat, 2) + ":"@ + hex_digits_upper(mac[1] as nat, 2) + ":"@
        + hex_digits_upper(mac[2] as nat, 2) + ":"@ + hex_digits_upper(mac[3] as nat, 2) + ":"@
        + hex_digits_upper(mac[4] as nat, 2) + ":"@ + hex_digits_upper(mac[5] as nat, 2)
}

/// The text of a hardware address.
pub fn format_mac_address(mac: &[u8; 6]) -> (s: String)
    ensures
        s@ == mac_text(mac@),
{
    hex_string_upper(mac[0] as u32, 2).concat(":").concat(
        hex_string_upper(mac[1] as u32, 2).as_str(),
    ).concat(":").concat(hex_string_upper(mac[2] as u32, 2).as_str()).concat(":").concat(
        hex_string_upper(mac[3] as u32, 2).as_str(),
    ).concat(":").concat(hex_string_upper(mac[4] as u32, 2).as_str()).concat(":").concat(
        hex_string_upper(mac[5] as u32, 2).as_str(),
    )
}

proof fn lemma_hex_pair(b: u8)
    ensures
        hex_digits_upper(b as nat, 2) =~= seq![
            digit_char_upper((b / 16) as nat),
            digit_char_upper((b % 16) as nat),
        ],
        hex_byte(hex_digits_upper(b as nat, 2)) == Some(b),
        forall|i: int|
            0 <= i < 2 ==> #[trigger] hex_digits_upper(b as nat, 2)[i] != ':',
{
    let hi = (b / 16) as nat;
    let lo = (b % 16) as nat;
    reveal_with_fuel(hex_digits_upper, 3);
    let s = hex_digits_upper(b as nat, 2);
    assert(s =~= seq![digit_char_upper(hi), digit_char_upper(lo)]);
    assert(s.drop_last() =~= seq![digit_char_upper(hi)]);
    assert(s.drop_last().drop_last() =~= Seq::<char>::empty());
    reveal_with_fuel(digits_numeral, 3);
    assert(digit_value(digit_char_upper(hi), 16) == Some(hi));
    assert(digit_value(digit_char_upper(lo), 16) == Some(lo));
    assert(digits_numeral(s.drop_last(), 16, 255) == Numeral::Value(hi as u64));
    assert(s[0] != '+' && s[0] != '-');
}

proof fn lemma_split_word(s: Seq<char>, word: Seq<char>, sep: char)
    requires
        forall|i: int| 0 <= i < word.len() ==> word[i] != sep,
    ensures
        split_on(s, sep).len() >= 1,
        split_on(s + word, sep) == split_on(s, sep).drop_last().push(
            split_on(s, sep).last() + word,
        ),
    decreases word.len(),
{
    lemma_split_some(s, sep);
    if word.len() == 0 {
        assert(s + word =~= s);
        assert(split_on(s, sep).last() + word =~= split_on(s, sep).last());
        assert(split_on(s, sep).drop_last().push(split_on(s, sep).last()) =~= split_on(s, sep));
    } else {
        lemma_split_word(s, word.drop_last(), sep);
        assert((s + word).drop_last() =~= s + word.drop_last());
        assert((s + word).last() == word.last());
        let front = split_on(s + word.drop_last(), sep);
        assert(front.last() == split_on(s, sep).last() + word.drop_last());
        assert(front.last().push(word.last()) =~= split_on(s, sep).last() + word);
        assert(front.drop_last() =~= split_on(s, sep).drop_last());
    }
}

proof fn lemma_split_some(s: Seq<char>, sep: char)
    ensures
        split_on(s, sep).len() >= 1,
    decreases s.len(),
{
    if s.len() > 0 {
        lemma_split_some(s.drop_last(), sep);
    }
}

proof fn lemma_split_next(s: Seq<char>, word: Seq<char>)
    requires
        forall|i: int| 0 <= i < word.len() ==> word[i] != ':',
    ensures
        split_on(s + ":"@ + word, ':') == split_on(s, ':').push(word),
{
    reveal_strlit(":");
    let t = s + ":"@;
    assert(t.drop_last() =~= s);
    assert(t.last() == ':');
    assert(split_on(t, ':') == split_on(s, ':').push(Seq::empty()));
    lemma_split_word(t, word, ':');
    assert(Seq::<char>::empty() + word =~= word);
    assert(split_on(t, ':').drop_last() =~= split_on(s, ':'));
}

/// The text of a hardware address gives back the address.
pub proof fn law_mac_round_trip(mac: Seq<u8>)
    requires
        mac.len() == 6,
    ensures
        mac_of(mac_text(mac)) == Ok::<Seq<u8>, Seq<char>>(mac),
{
    let w = Seq::new(6, |i: int| hex_digits_upper(mac[i] as nat, 2));
    assert forall|i: int| 0 <= i < 6 implies hex_byte(#[trigger] w[i]) == Some(mac[i]) && (forall|
        j: int,
    |
        0 <= j < w[i].len() ==> w[i][j] != ':') by {
        lemma_hex_pair(mac[i]);
    }
    let t0 = w[0];
    let t1 = t0 + ":"@ + w[1];
    let t2 = t1 + ":"@ + w[2];
    let t3 = t2 + ":"@ + w[3];
    let t4 = t3 + ":"@ + w[4];
    let t5 = t4 + ":"@ + w[5];
    assert(t5 == mac_text(mac));
    lemma_split_word(Seq::empty(), w[0], ':');
    assert(Seq::<char>::empty() + w[0] =~= w[0]);
    assert(split_on(t0, ':') =~= w.take(1));
    lemma_split_next(t0, w[1]);
    assert(split_on(t1, ':') =~= w.take(2));
    lemma_split_next(t1, w[2]);
    assert(split_on(t2, ':') =~= w.take(3));
    lemma_split_next(t2, w[3]);
    assert(split_on(t3, ':') =~= w.take(4));
    lemma_split_next(t3, w[4]);
    assert(split_on(t4, ':') =~= w.take(5));
    lemma_split_next(t4, w[5]);
    assert(split_on(t5, ':') =~= w);
    lemma_mac_bytes(w, mac);
}

proof fn lemma_mac_bytes(w: Seq<Seq<char>>, mac: Seq<u8>)
    requires
        w.len() == mac.len(),
        forall|i: int| 0 <= i < w.len() ==> hex_byte(#[trigger] w[i]) == Some(mac[i]),
    ensures
        mac_bytes(w) == Ok::<Seq<u8>, Seq<char>>(mac),
    decreases w.len(),
{
    if w.len() == 0 {
        assert(mac =~= Seq::empty());
    } else {
        lemma_mac_bytes(w.drop_last(), mac.drop_last());
        assert(mac.drop_last().push(mac.last()) =~= mac);
    }
}

impl NetworkDevice {
    /// The same device after a submission.
    pub open spec fn submitted(self) -> NetworkDevice {
        NetworkDevice { link: self.link.after(), ..self }
    }

    /// The device from the server's answer to the import, with the usual
    /// endpoints, and bare frames.
    pub fn connect(busid: &str, reply: OpMessage) -> (r: Result<Self, ClientError>)
        ensures
            match reply {
                OpMessage::RepImport(rep) => if rep.status != 0 {
                    r matches Err(ClientError::ImportRejected { busid: b, status }) && b@ == busid@
                        && status == rep.status
                } else {
                    match rep.device {
                        Some(d) => {
                            &&& r matches Ok(dev) && dev == (NetworkDevice {
                                link: Link { devid: devid_of(d), next_seqnum: 1 },
                                ep_data_in: DEFAULT_EP_DATA_IN,
                                ep_data_out: DEFAULT_EP_DATA_OUT,
                                ep_notify: None,
                                protocol: NetworkProtocol::Ecm,
                                mac_address: dev.mac_address,
                                max_segment_size: DEFAULT_MAX_SEGMENT_SIZE,
                                control_interface: 0,
                            }) && dev.mac_address@ == seq![0u8, 0u8, 0u8, 0u8, 0u8, 0u8]
                        },
                        None => r matches Err(ClientError::ImportMissingDevice),
                    }
                },
                _ => r matches Err(
                    ClientError::Protocol(
                        crate::protocol::error::ProtocolError::InvalidOpCode(0),
                    ),
                ),
            },
    {
        match Link::connect(busid, reply) {
            Ok((link, _)) => {
                let mac_address: [u8; 6] = [0, 0, 0, 0, 0, 0];
                assert(mac_address@ =~= seq![0u8, 0u8, 0u8, 0u8, 0u8, 0u8]);
                Ok(
                    NetworkDevice {
                        link,
                        ep_data_in: DEFAULT_EP_DATA_IN,
                        ep_data_out: DEFAULT_EP_DATA_OUT,
                        ep_notify: None,
                        protocol: NetworkProtocol::Ecm,
                        mac_address,
                        max_segment_size: DEFAULT_MAX_SEGMENT_SIZE,
                        control_interface: 0,
                    },
                )
            },
            Err(e) => Err(e),
        }
    }

    /// Initialise the device: set the default packet filter.
    pub fn initialize(&mut self) -> (cmd: CmdSubmit)
        ensures
            *final(self) == old(self).submitted(),
            cmd@ == old(self).link.control_out_model(
                packet_filter_setup(old(self).control_interface, DEFAULT_PACKET_FILTER),
                Seq::empty(),
            ),
    {
        self.set_packet_filter(DEFAULT_PACKET_FILTER)
    }

    /// Submit a packet filter.
    pub fn set_packet_filter(&mut self, filter: u16) -> (cmd: CmdSubmit)
        ensures
            *final(self) == old(self).submitted(),
            cmd@ == old(self).link.control_out_model(
                packet_filter_setup(old(self).control_interface, filter),
                Seq::empty(),
            ),
    {
        let setup = build_set_packet_filter_setup(self.control_interface, filter);
        let nothing: [u8; 0] = [];
        assert(nothing@ =~= Seq::<u8>::empty());
        self.link.control_out(&setup, nothing.as_slice())
    }

    /// Take the result of a submission of which nothing but success is asked: a
    /// packet filter, or a frame.
    pub fn submission_result(&self, msg: &UrbMessage) -> (r: Result<(), ClientError>)
        ensures
            match r {
                Ok(_) => msg matches UrbMessage::RetSubmit(ret) && ret.status == 0,
                Err(e) => result_means(
                    *msg,
                    DeviceKind::Network,
                    "URB transfer"@,
                    Err::<Vec<u8>, ClientError>(e),
                ),
            },
    {
        match read_ret_submit(msg, DeviceKind::Network, "URB transfer") {
            Ok(_) => Ok(()),
            Err(e) => Err(e),
        }
    }

    /// Ask for a frame, with room for the headers of a block.
    pub fn read_frame(&mut self) -> (cmd: CmdSubmit)
        ensures
            *final(self) == old(self).submitted(),
            cmd@ == old(self).link.in_model(
                old(self).ep_data_in,
                (old(self).max_segment_size + 512) as u32,
            ),
    {
        self.link.receive(self.ep_data_in, self.max_segment_size as u32 + 512)
    }

    /// Take the result of asking for a frame: what came, where frames are bare,
    /// or else the first frame in the block.
    pub fn frame_result(&self, msg: &UrbMessage) -> (r: Result<Vec<u8>, ClientError>)
        ensures
            match *msg {
                UrbMessage::RetSubmit(ret) => ret.status == 0 ==> match self.protocol {
                    NetworkProtocol::Ecm => r matches Ok(v) && v@ == bytes_seq(
                        ret.transfer_buffer,
                    ),
                    NetworkProtocol::Ncm => match frame_of(bytes_seq(ret.transfer_buffer)) {
                        Ok(frame) => r matches Ok(v) && v@ == frame,
                        Err(text) => r matches Err(e) && is_device_error(
                            e,
                            DeviceKind::Network,
                            text,
                        ),
                    },
                },
                _ => true,
            },
            !(msg matches UrbMessage::RetSubmit(ret) && ret.status == 0) ==> result_means(
                *msg,
                DeviceKind::Network,
                "URB transfer"@,
                r,
            ),
    {
        match read_ret_submit(msg, DeviceKind::Network, "URB transfer") {
            Ok(data) => match self.protocol {
                NetworkProtocol::Ecm => Ok(data),
                NetworkProtocol::Ncm => Self::unwrap_ncm_ntb(data.as_slice()),
            },
            Err(e) => Err(e),
        }
    }

    /// Send a frame: bare, or in a block.
    pub fn write_frame(&mut self, frame: &[u8]) -> (cmd: CmdSubmit)
        requires
            old(self).protocol == NetworkProtocol::Ncm ==> frame@.len() + 28 <= 65535,
        ensures
            *final(self) == old(self).submitted(),
            cmd@ == old(self).link.out_model(
                old(self).ep_data_out,
                match old(self).protocol {
                    NetworkProtocol::Ecm => frame@,
                    NetworkProtocol::Ncm => ntb_of(frame@),
                },
            ),
    {
        match self.protocol {
            NetworkProtocol::Ecm => self.link.send(self.ep_data_out, frame),
            NetworkProtocol::Ncm => {
                let payload = Self::wrap_ncm_ntb(frame);
                self.link.send(self.ep_data_out, payload.as_slice())
            },
        }
    }

    /// A frame in a block. The block's length must fit in 16 bits.
    pub fn wrap_ncm_ntb(frame: &[u8]) -> (b: Vec<u8>)
        requires
            frame@.len() + 28 <= 65535,
        ensures
            b@ == ntb_of(frame@),
    {
        let length: u16 = frame.len() as u16;
        let mut b: Vec<u8> = Vec::new();
        push_le32(&mut b, NTH16_SIGNATURE);
        push_le16(&mut b, 12);
        push_le16(&mut b, 0);
        push_le16(&mut b, length + 28);
        push_le16(&mut b, 12);
        push_le32(&mut b, NDP16_SIGNATURE);
        push_le16(&mut b, 16);
        push_le16(&mut b, 0);
        push_le16(&mut b, 28);
        push_le16(&mut b, length);
        push_le16(&mut b, 0);
        push_le16(&mut b, 0);
        b.extend_from_slice(frame);
        assert(b@ =~= ntb_of(frame@));
        b
    }

    /// The first frame in a block.
    pub fn unwrap_ncm_ntb(data: &[u8]) -> (r: Result<Vec<u8>, ClientError>)
        ensures
            match frame_of(data@) {
                Ok(frame) => r matches Ok(v) && v@ == frame,
                Err(text) => r matches Err(e) && is_device_error(e, DeviceKind::Network, text),
            },
    {
        if data.len() < NTH16_HEADER_SIZE {
            return Err(ClientError::Network("NTB too short for NTH16 header".to_owned()));
        }
        let signature: u32 = read_le32(data, 0);
        if signature != NTH16_SIGNATURE {
            return Err(
                ClientError::Network(
                    "invalid NTH16 signature: 0x".to_owned().concat(
                        hex_string_upper(signature, 8).as_str(),
                    ),
                ),
            );
        }
        let table: usize = read_le16(data, 10) as usize;
        if data.len() < NDP16_MIN_SIZE || table > data.len() - NDP16_MIN_SIZE {
            return Err(ClientError::Network("NTB too short for NDP16 header".to_owned()));
        }
        let table_signature: u32 = read_le32(data, table);
        if table_signature != NDP16_SIGNATURE {
            return Err(
                ClientError::Network(
                    "invalid NDP16 signature: 0x".to_owned().concat(
                        hex_string_upper(table_signature, 8).as_str(),
                    ),
                ),
            );
        }
        let index: usize = read_le16(data, table + 8) as usize;
        let length: usize = read_le16(data, table + 10) as usize;
        if index == 0 || length == 0 {
            return Err(ClientError::Network("NDP16 contains no datagrams".to_owned()));
        }
        if index + length > data.len() {
            return Err(
                ClientError::Network(
                    "datagram extends past NTB: offset=".to_owned().concat(
                        decimal_string(index as u64).as_str(),
                    ).concat(", len=").concat(decimal_string(length as u64).as_str()).concat(
                        ", total=",
                    ).concat(decimal_string(data.len() as u64).as_str()),
                ),
            );
        }
        Ok(slice_to_vec(slice_subrange(data, index, index + length)))
    }

    /// The hardware address.
    pub fn mac_address(&self) -> (mac: &[u8; 6])
        ensures
            *mac == self.mac_address,
    {
        &self.mac_address
    }

    /// Set the hardware address.
    pub fn set_mac_address(&mut self, mac: [u8; 6])
        ensures
            *final(self) == (NetworkDevice { mac_address: mac, ..*old(self) }),
    {
        self.mac_address = mac;
    }

    /// Set how frames are sent.
    pub fn set_protocol(&mut self, protocol: NetworkProtocol)
        ensures
            *final(self) == (NetworkDevice { protocol, ..*old(self) }),
    {
        self.protocol = protocol;
    }

    /// How frames are sent.
    pub fn protocol(&self) -> (p: NetworkProtocol)
        ensures
            p == self.protocol,
    {
        self.protocol
    }

    /// The largest segment.
    pub fn max_segment_size(&self) -> (n: u16)
        ensures
            n == self.max_segment_size,
    {
        self.max_segment_size
    }
}

/// A block stands byte by byte: the signature of its header, the size of the
/// header, a sequence number of zero, its whole length and where its table is;
/// the signature of the table, its size, that no table follows, where the frame
/// is and how long it is, the end of the table; then the frame, to the end.
pub proof fn law_block_layout(frame: &[u8], b: Vec<u8>)
    requires
        call_ensures(NetworkDevice::wrap_ncm_ntb, (frame,), b),
        frame@.len() + 28 <= 65535,
    ensures
        b@.len() == 28 + frame@.len(),
        b@.take(4) == seq![0x4eu8, 0x43u8, 0x4du8, 0x48u8],
        b@[4] + 256 * b@[5] == 12,
        b@[6] + 256 * b@[7] == 0,
        b@[8] + 256 * b@[9] == b@.len(),
        b@[10] + 256 * b@[11] == 12,
        b@.subrange(12, 16) == seq![0x4eu8, 0x43u8, 0x4du8, 0x30u8],
        b@[16] + 256 * b@[17] == 16,
        b@[18] + 256 * b@[19] == 0,
        b@[20] + 256 * b@[21] == 28,
        b@[22] + 256 * b@[23] == frame@.len(),
        forall|i: int| 24 <= i < 28 ==> #[trigger] b@[i] == 0,
        forall|i: int| 0 <= i < frame@.len() ==> #[trigger] b@[28 + i] == frame@[i],
{
    let length = frame@.len() as u16;
    let s = ntb_of(frame@);
    assert(b@ == s);
    assert(s.subrange(4, 6) =~= le16(12));
    assert(s.subrange(6, 8) =~= le16(0));
    assert(s.subrange(8, 10) =~= le16((length + 28) as u16));
    assert(s.subrange(10, 12) =~= le16(12));
    assert(s.subrange(16, 18) =~= le16(16));
    assert(s.subrange(18, 20) =~= le16(0));
    assert(s.subrange(20, 22) =~= le16(28));
    assert(s.subrange(22, 24) =~= le16(length));
    assert(s.subrange(24, 26) =~= le16(0));
    assert(s.subrange(26, 28) =~= le16(0));
    assert(s.take(4) =~= le32(NTH16_SIGNATURE));
    assert(s.subrange(12, 16) =~= le32(NDP16_SIGNATURE));
    assert(forall|i: int, n: u16|
        0 <= i && i + 2 <= s.len() && #[trigger] s.subrange(i, i + 2) == #[trigger] le16(n)
            ==> s[i] == le16(n)[0] && s[i + 1] == le16(n)[1]) by {
        assert forall|i: int, n: u16|
            0 <= i && i + 2 <= s.len() && #[trigger] s.subrange(i, i + 2) == #[trigger] le16(n)
            implies s[i] == le16(n)[0] && s[i + 1] == le16(n)[1] by {
            assert(s.subrange(i, i + 2)[0] == s[i]);
            assert(s.subrange(i, i + 2)[1] == s[i + 1]);
        }
    }
}

proof fn lemma_signature(part: Seq<u8>, b: Seq<u8>, i: int, signature: u32)
    requires
        0 <= i,
        i + 4 <= b.len(),
        part == b.subrange(i, i + 4),
        le32_at(b, i) == signature,
    ensures
        part == le32(signature),
{
    assert(part[0] == b[i] && part[1] == b[i + 1] && part[2] == b[i + 2] && part[3] == b[i + 3]);
    crate::endian::law_bytes_stand_for(b, i);
    lemma_digits_of_sum(b[i], b[i + 1], b[i + 2], b[i + 3], signature);
    assert(part =~= le32(signature));
}

proof fn lemma_digits_of_sum(a: u8, b: u8, c: u8, d: u8, v: u32)
    requires
        v == a + (b + (c + d * 256) * 256) * 256,
    ensures
        v % 256 == a,
        (v / 256) % 256 == b,
        (v / 0x10000) % 256 == c,
        v / 0x1000000 == d,
{
    assert(v % 256 == a && (v / 256) % 256 == b && (v / 0x10000) % 256 == c && v / 0x1000000 == d)
        by (bit_vector)
        requires
            v == a + (b + (c + d * 256) * 256) * 256,
    ;
}

/// A block read is a part of the bytes: those that the first entry of the table
/// tells of, where the block's header tells of the table.
pub proof fn law_block_read(data: &[u8], r: Result<Vec<u8>, ClientError>)
    requires
        call_ensures(NetworkDevice::unwrap_ncm_ntb, (data,), r),
    ensures
        r matches Err(e) ==> e is Network,
        r matches Ok(v) ==> {
            let b = data@;
            let table = b[10] + 256 * b[11];
            let index = b[table + 8] + 256 * b[table + 9];
            &&& b.len() >= 12
            &&& b.take(4) == seq![0x4eu8, 0x43u8, 0x4du8, 0x48u8]
            &&& table + 16 <= b.len()
            &&& b.subrange(table, table + 4) == seq![0x4eu8, 0x43u8, 0x4du8, 0x30u8]
            &&& index > 0
            &&& v@.len() > 0
            &&& v@.len() == b[table + 10] + 256 * b[table + 11]
            &&& index + v@.len() <= b.len()
            &&& forall|i: int| 0 <= i < v@.len() ==> #[trigger] v@[i] == b[index + i]
        },
{
    if let Ok(v) = r {
        let b = data@;
        let table = le16_at(b, 10) as int;
        lemma_signature(b.take(4), b, 0, NTH16_SIGNATURE);
        lemma_signature(b.subrange(table, table + 4), b, table, NDP16_SIGNATURE);
    }
}

/// The request of the class: for a packet filter.
pub proof fn law_filter_request(interface: u8, filter: u16, setup: [u8; 8])
    requires
        call_ensures(build_set_packet_filter_setup, (interface, filter), setup),
    ensures
        setup_stands(setup@, 0x21, 0x43, filter as int, interface as int, 0),
{
}

/// A network device just imported sends bare frames, on endpoint two, and they
/// come from endpoint one; a segment has up to 1514 bytes.
pub proof fn law_connected(busid: &str, reply: OpMessage, n: NetworkDevice)
    requires
        call_ensures(NetworkDevice::connect, (busid, reply), Ok(n)),
    ensures
        reply matches OpMessage::RepImport(rep) && rep.status == 0 && rep.device is Some,
        n.ep_data_in == 0x81,
        n.ep_data_out == 2,
        n.ep_notify is None,
        n.protocol == NetworkProtocol::Ecm,
        n.max_segment_size == 1514,
        n.control_interface == 0,
        forall|i: int| 0 <= i < 6 ==> #[trigger] n.mac_address@[i] == 0,
        n.link.next_seqnum == 1,
{
}

/// The initialisation asks for directed, broadcast and listed multicast
/// packets; every filter goes to the control interface, without data.
pub proof fn law_filter_sent(n: &mut NetworkDevice, filter: u16, first: CmdSubmit, set: CmdSubmit)
    requires
        call_ensures(NetworkDevice::initialize, (n,), first),
        call_ensures(NetworkDevice::set_packet_filter, (n, filter), set),
    ensures
        sends(first, old(n).link, 0, Seq::empty()),
        setup_stands(first.setup@, 0x21, 0x43, 0x13, old(n).control_interface as int, 0),
        sends(set, old(n).link, 0, Seq::empty()),
        setup_stands(
            set.setup@,
            0x21,
            0x43,
            filter as int,
            old(n).control_interface as int,
            0,
        ),
{
}

/// A frame is asked for from the endpoint that data comes from, with room for a
/// segment and 512 bytes; a frame that is sent goes out on the other endpoint,
/// bare or as the block made of it.
pub proof fn law_frames(n: &mut NetworkDevice, frame: &[u8], read: CmdSubmit, write: CmdSubmit)
    requires
        call_ensures(NetworkDevice::read_frame, (n,), read),
        call_ensures(NetworkDevice::write_frame, (n, frame), write),
        frame@.len() + 28 <= 65535,
    ensures
        asks(read, old(n).link, old(n).ep_data_in as int, old(n).max_segment_size + 512),
        old(n).protocol == NetworkProtocol::Ecm ==> sends(
            write,
            old(n).link,
            old(n).ep_data_out as int,
            frame@,
        ),
        old(n).protocol == NetworkProtocol::Ncm ==> forall|b: Vec<u8>| #[trigger]
            call_ensures(NetworkDevice::wrap_ncm_ntb, (frame,), b) ==> sends(
                write,
                old(n).link,
                old(n).ep_data_out as int,
                b@,
            ),
{
    lemma_endpoint_number(n.ep_data_in);
    lemma_endpoint_number(n.ep_data_out);
}

/// A frame that came is the data itself where frames are bare, and else the
/// first frame in the block; a result with another status is an error.
pub proof fn law_frame_came(n: NetworkDevice, msg: UrbMessage, r: Result<Vec<u8>, ClientError>)
    requires
        call_ensures(NetworkDevice::frame_result, (&n, &msg), r),
    ensures
        !(msg matches UrbMessage::RetSubmit(ret) && ret.status == 0) ==> (r matches Err(e)
            && e is Network),
        msg matches UrbMessage::RetSubmit(ret) ==> ret.status == 0 ==> {
            let data = bytes_seq(ret.transfer_buffer);
            &&& n.protocol == NetworkProtocol::Ecm ==> (r matches Ok(v) && v@ == data)
            &&& n.protocol == NetworkProtocol::Ncm ==> forall|frame: Seq<u8>|
                0 < frame.len() <= 65507 && data == #[trigger] ntb_of(frame) ==> (r matches Ok(v)
                    && v@ == frame)
        },
{
    if let UrbMessage::RetSubmit(ret) = msg {
        if ret.status == 0 && n.protocol == NetworkProtocol::Ncm {
            assert forall|frame: Seq<u8>|
                0 < frame.len() <= 65507 && bytes_seq(ret.transfer_buffer) == #[trigger] ntb_of(
                    frame,
                ) implies (r matches Ok(v) && v@ == frame) by {
                law_ntb_round_trip(frame);
            }
        }
    }
}

/// The text of a hardware address has 17 characters, colons at every third
/// place, and reading it gives back the six bytes in their order.
pub proof fn law_mac_text(mac: [u8; 6], s: String, t: &str, r: Result<[u8; 6], ClientError>)
    requires
        call_ensures(format_mac_address, (&mac,), s),
        t@ == s@,
        call_ensures(parse_mac_address, (t,), r),
    ensures
        s@.len() == 17,
        s@[2] == ':' && s@[5] == ':' && s@[8] == ':' && s@[11] == ':' && s@[14] == ':',
        forall|i: int| 0 <= i < 6 ==> hex_byte(#[trigger] s@.subrange(3 * i, 3 * i + 2)) == Some(
            mac@[i],
        ),
        r matches Ok(m) && m@ == mac@,
{
    reveal_strlit(":");
    assert forall|i: int| 0 <= i < 6 implies hex_digits_upper(#[trigger] mac@[i] as nat, 2).len()
        == 2 && hex_byte(hex_digits_upper(mac@[i] as nat, 2)) == Some(mac@[i]) by {
        lemma_hex_pair(mac@[i]);
    }
    let a = mac@;
    assert(a[0] == a[0] && a[1] == a[1] && a[2] == a[2] && a[3] == a[3] && a[4] == a[4] && a[5]
        == a[5]);
    assert(s@.subrange(0, 2) =~= hex_digits_upper(a[0] as nat, 2));
    assert(s@.subrange(3, 5) =~= hex_digits_upper(a[1] as nat, 2));
    assert(s@.subrange(6, 8) =~= hex_digits_upper(a[2] as nat, 2));
    assert(s@.subrange(9, 11) =~= hex_digits_upper(a[3] as nat, 2));
    assert(s@.subrange(12, 14) =~= hex_digits_upper(a[4] as nat, 2));
    assert(s@.subrange(15, 17) =~= hex_digits_upper(a[5] as nat, 2));
    law_mac_round_trip(mac@);
}

} // verus!
