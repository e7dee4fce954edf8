//! Serial devices: the line's coding and state, and the data over it.

use vstd::prelude::*;
use vstd::string::*;

use crate::client::engine::devid_of;
use crate::client::error::ClientError;
use crate::client::transfer::{
    asks, copied, copy_front, lemma_endpoint_number, read_ret_submit, result_means, sends,
    setup_stands, shorter, DeviceKind, Link,
};
use crate::endian::{le32, le32_at, lemma_le32_at, read_le32};
use crate::protocol::buf::bytes_seq;
use crate::protocol::discovery::OpMessage;
use crate::protocol::urb::{CmdSubmit, UrbMessage};

verus! {

/// The endpoint that data goes to.
pub const DEFAULT_EP_DATA_OUT: u8 = 0x02;

/// The endpoint that data comes from.
pub const DEFAULT_EP_DATA_IN: u8 = 0x82;

/// Size of a line coding.
pub const LINE_CODING_SIZE: usize = 7;

/// The request to set the line coding.
pub const SET_LINE_CODING: u8 = 0x20;

/// The request to set the state of the control lines.
pub const SET_CONTROL_LINE_STATE: u8 = 0x22;

/// A request of the class out of the host, to an interface.
pub const CDC_REQUEST_TYPE: u8 = 0x21;

/// How the line codes characters.
#[derive(Debug, Clone, Copy, PartialEq, Eq, Structural)]
pub struct LineCoding {
    /// Bits per second.
    pub baud_rate: u32,
    /// 0 one, 1 one and a half, 2 two.
    pub stop_bits: u8,
    /// 0 none, 1 odd, 2 even, 3 mark, 4 space.
    pub parity: u8,
    pub data_bits: u8,
}

/// The bytes of a line coding.
pub open spec fn line_coding_bytes(c: LineCoding) -> Seq<u8> {
    le32(c.baud_rate) + seq![c.stop_bits, c.parity, c.data_bits]
}

/// The line coding that bytes stand for.
pub open spec fn line_coding_of(b: Seq<u8>) -> LineCoding {
    LineCoding { baud_rate: le32_at(b, 0), stop_bits: b[4], parity: b[5], data_bits: b[6] }
}

impl LineCoding {
    /// The bytes of the line coding.
    pub fn to_bytes(&self) -> (b: [u8; 7])
        ensures
            b@ == line_coding_bytes(*self),
    {
        let r: u32 = self.baud_rate;
        let b: [u8; 7] = [
            (r % 256) as u8,
            ((r / 256) % 256) as u8,
            ((r / 0x10000) % 256) as u8,
            (r / 0x1000000) as u8,
            self.stop_bits,
            self.parity,
            self.data_bits,
        ];
        assert(b@ =~= line_coding_bytes(*self));
        b
    }

    /// The line coding that bytes stand for.
    pub fn from_bytes(buf: &[u8; 7]) -> (c: Self)
        ensures
            c == line_coding_of(buf@),
    {
        LineCoding {
            baud_rate: read_le32(buf.as_slice(), 0),
            stop_bits: buf[4],
            parity: buf[5],
            data_bits: buf[6],
        }
    }
}

/// Bytes give back the line coding they were made from.
pub proof fn law_line_coding_round_trip(c: LineCoding)
    ensures
        line_coding_bytes(c).len() == LINE_CODING_SIZE,
        line_coding_of(line_coding_bytes(c)) == c,
{
    let b = line_coding_bytes(c);
    assert(b.subrange(0, 4) =~= le32(c.baud_rate));
    lemma_le32_at(b, 0, c.baud_rate);
}

/// The setup packet that sets the line coding.
pub open spec fn line_coding_setup(interface: u8) -> Seq<u8> {
    seq![0x21u8, 0x20u8, 0u8, 0u8, interface, 0u8, 7u8, 0u8]
}

/// The setup packet that sets the line coding.
pub fn build_set_line_coding_setup(interface: u8) -> (s: [u8; 8])
    ensures
        s@ == line_coding_setup(interface),
{
    let s: [u8; 8] = [CDC_REQUEST_TYPE, SET_LINE_CODING, 0, 0, interface, 0, 7, 0];
    assert(s@ =~= line_coding_setup(interface));
    s
}

/// The setup packet that sets the state of the control lines: bit 0 says that
/// the terminal is ready, bit 1 that it requests to send.
pub open spec fn control_line_setup(interface: u8, dtr: bool, rts: bool) -> Seq<u8> {
    let state = (if dtr {
        1int
    } else {
        0
    }) + (if rts {
        2int
    } else {
        0
    });
    seq![0x21u8, 0x22u8, state as u8, 0u8, interface, 0u8, 0u8, 0u8]
}

/// The setup packet that sets the state of the control lines.
pub fn build_set_control_line_state_setup(interface: u8, dtr: bool, rts: bool) -> (s: [u8; 8])
    ensures
        s@ == control_line_setup(interface, dtr, rts),
{
    let ready: u8 = if dtr {
        1
    } else {
        0
    };
    let request: u8 = if rts {
        2
    } else {
        0
    };
    let s: [u8; 8] = [
        CDC_REQUEST_TYPE,
        SET_CONTROL_LINE_STATE,
        ready + request,
        0,
        interface,
        0,
        0,
        0,
    ];
    assert(s@ =~= control_line_setup(interface, dtr, rts));
    s
}

/// An imported serial device.
#[derive(Debug)]
pub struct SerialDevice {
    pub link: Link,
    pub ep_data_in: u8,
    pub ep_data_out: u8,
    /// The endpoint of notifications, if there is one.
    pub ep_notify: Option<u8>,
    pub control_interface: u8,
    pub data_interface: u8,
    /// The coding that the device was last set to.
    pub coding: LineCoding,
}

/// Where the initialisation of a serial device stands: which result is awaited.
#[derive(Debug, Clone, Copy, PartialEq, Eq, Structural)]
pub enum SerialInit {
    LineCoding,
    ControlLines,
}

/// What comes after a result in the initialisation.
#[derive(Debug)]
pub enum SerialInitStep {
    /// Submit this, and await its result.
    Submit(CmdSubmit, SerialInit),
    /// The device is initialised.
    Done,
}

/// A line with one stop bit, no parity and eight data bits.
pub open spec fn plain_coding(baud_rate: u32) -> LineCoding {
    LineCoding { baud_rate, stop_bits: 0, parity: 0, data_bits: 8 }
}

impl SerialDevice {
    /// The same device after a submission.
    pub open spec fn submitted(self) -> SerialDevice {
        SerialDevice { link: self.link.after(), ..self }
    }

    /// The device from the server's answer to the import, with the usual
    /// endpoints and interfaces, at 9600 bits per second.
    pub fn connect(busid: &str, reply: OpMessage) -> (r: Result<Self, ClientError>)
        ensures
            match reply {
                OpMessage::RepImport(rep) => if rep.status != 0 {
                    r matches Err(ClientError::ImportRejected { busid: b, status }) && b@ == busid@
                        && status == rep.status
                } else {
                    match rep.device {
                        Some(d) => r == Ok::<SerialDevice, ClientError>(
                            SerialDevice {
                                link: Link { devid: devid_of(d), next_seqnum: 1 },
                                ep_data_in: DEFAULT_EP_DATA_IN,
                                ep_data_out: DEFAULT_EP_DATA_OUT,
                                ep_notify: None,
                                control_interface: 0,
                                data_interface: 1,
                                coding: plain_coding(9600),
                            },
                        ),
                        None => r matches Err(ClientError::ImportMissingDevice),
                    }
                },
                _ => r matches Err(
                    ClientError::Protocol(
                        crate::protocol::error::ProtocolError::InvalidOpCode(0),
                    ),
                ),
            },
    {
        match Link::connect(busid, reply) {
            Ok((link, _)) => Ok(
                SerialDevice {
                    link,
                    ep_data_in: DEFAULT_EP_DATA_IN,
                    ep_data_out: DEFAULT_EP_DATA_OUT,
                    ep_notify: None,
                    control_interface: 0,
                    data_interface: 1,
                    coding: LineCoding { baud_rate: 9600, stop_bits: 0, parity: 0, data_bits: 8 },
                },
            ),
            Err(e) => Err(e),
        }
    }

    /// Submit a line coding.
    pub fn set_line_coding(&mut self, coding: &LineCoding) -> (cmd: CmdSubmit)
        ensures
            *final(self) == old(self).submitted(),
            cmd@ == old(self).link.control_out_model(
                line_coding_setup(old(self).control_interface),
                line_coding_bytes(*coding),
            ),
    {
        let setup = build_set_line_coding_setup(self.control_interface);
        let payload = coding.to_bytes();
        self.link.control_out(&setup, payload.as_slice())
    }

    /// Take the result of submitting a line coding: where it succeeded, the
    /// device has the coding.
    pub fn line_coding_set(&mut self, coding: &LineCoding, msg: &UrbMessage) -> (r: Result<
        (),
        ClientError,
    >)
        ensures
            match r {
                Ok(_) => {
                    &&& msg matches UrbMessage::RetSubmit(ret) && ret.status == 0
                    &&& *final(self) == (SerialDevice { coding: *coding, ..*old(self) })
                },
                Err(e) => {
                    &&& result_means(
                        *msg,
                        DeviceKind::Serial,
                        "URB transfer"@,
                        Err::<Vec<u8>, ClientError>(e),
                    )
                    &&& *final(self) == *old(self)
                },
            },
    {
        match read_ret_submit(msg, DeviceKind::Serial, "URB transfer") {
            Ok(_) => {
                self.coding = *coding;
                Ok(())
            },
            Err(e) => Err(e),
        }
    }

    /// Submit the state of the control lines.
    pub fn set_control_line_state(&mut self, dtr: bool, rts: bool) -> (cmd: CmdSubmit)
        ensures
            *final(self) == old(self).submitted(),
            cmd@ == old(self).link.control_out_model(
                control_line_setup(old(self).control_interface, dtr, rts),
                Seq::empty(),
            ),
    {
        let setup = build_set_control_line_state_setup(self.control_interface, dtr, rts);
        let nothing: [u8; 0] = [];
        assert(nothing@ =~= Seq::<u8>::empty());
        self.link.control_out(&setup, nothing.as_slice())
    }

    /// Start the initialisation: set the line to a rate, with one stop bit, no
    /// parity and eight data bits.
    pub fn initialize(&mut self, baud_rate: u32) -> (step: SerialInitStep)
        ensures
            *final(self) == old(self).submitted(),
            step matches SerialInitStep::Submit(cmd, at) && at == SerialInit::LineCoding && cmd@
                == old(self).link.control_out_model(
                line_coding_setup(old(self).control_interface),
                line_coding_bytes(plain_coding(baud_rate)),
            ),
    {
        let coding = LineCoding { baud_rate, stop_bits: 0, parity: 0, data_bits: 8 };
        SerialInitStep::Submit(self.set_line_coding(&coding), SerialInit::LineCoding)
    }

    /// Go on with the initialisation after a result: then set both control
    /// lines. A result that is an error ends it.
    pub fn continue_initialize(
        &mut self,
        at: SerialInit,
        baud_rate: u32,
        msg: &UrbMessage,
    ) -> (r: Result<SerialInitStep, ClientError>)
        ensures
            match r {
                Err(e) => {
                    &&& *final(self) == *old(self)
                    &&& result_means(
                        *msg,
                        DeviceKind::Serial,
                        "URB transfer"@,
                        Err::<Vec<u8>, ClientError>(e),
                    )
                },
                Ok(step) => {
                    &&& msg matches UrbMessage::RetSubmit(ret) && ret.status == 0
                    &&& match at {
                        SerialInit::LineCoding => {
                            &&& *final(self) == (SerialDevice {
                                coding: plain_coding(baud_rate),
                                ..old(self).submitted()
                            })
                            &&& step matches SerialInitStep::Submit(cmd, next) && next
                                == SerialInit::ControlLines && cmd@
                                == old(self).link.control_out_model(
                                control_line_setup(old(self).control_interface, true, true),
                                Seq::empty(),
                            )
                        },
                        SerialInit::ControlLines => *final(self) == *old(self) && step
                            == SerialInitStep::Done,
                    }
                },
            },
    {
        match at {
            SerialInit::LineCoding => {
                let coding = LineCoding { baud_rate, stop_bits: 0, parity: 0, data_bits: 8 };
                match self.line_coding_set(&coding, msg) {
                    Ok(_) => Ok(
                        SerialInitStep::Submit(
                            self.set_control_line_state(true, true),
                            SerialInit::ControlLines,
                        ),
                    ),
                    Err(e) => Err(e),
                }
            },
            SerialInit::ControlLines => match read_ret_submit(
                msg,
                DeviceKind::Serial,
                "URB transfer",
            ) {
                Ok(_) => Ok(SerialInitStep::Done),
                Err(e) => Err(e),
            },
        }
    }

    /// Ask for as much data as a buffer takes.
    pub fn read(&mut self, len: usize) -> (cmd: CmdSubmit)
        ensures
            *final(self) == old(self).submitted(),
            cmd@ == old(self).link.in_model(old(self).ep_data_in, len as u32),
    {
        self.link.receive(self.ep_data_in, len as u32)
    }

    /// Take the result of asking for data: copy what fits, and say how much.
    pub fn read_result(&self, msg: &UrbMessage, buf: &mut [u8]) -> (r: Result<usize, ClientError>)
        ensures
            match r {
                Ok(n) => {
                    &&& msg matches UrbMessage::RetSubmit(ret) && ret.status == 0 && n == shorter(
                        bytes_seq(ret.transfer_buffer).len(),
                        old(buf)@.len(),
                    ) && final(buf)@ == copied(old(buf)@, bytes_seq(ret.transfer_buffer))
                },
                Err(e) => {
                    &&& result_means(
                        *msg,
                        DeviceKind::Serial,
                        "URB transfer"@,
                        Err::<Vec<u8>, ClientError>(e),
                    )
                    &&& final(buf)@ == old(buf)@
                },
            },
    {
        match read_ret_submit(msg, DeviceKind::Serial, "URB transfer") {
            Ok(data) => Ok(copy_front(buf, &data)),
            Err(e) => Err(e),
        }
    }

    /// Send data.
    pub fn write(&mut self, data: &[u8]) -> (cmd: CmdSubmit)
        ensures
            *final(self) == old(self).submitted(),
            cmd@ == old(self).link.out_model(old(self).ep_data_out, data@),
    {
        self.link.send(self.ep_data_out, data)
    }

    /// Take the result of sending `len` bytes of data: all of it was sent.
    pub fn write_result(&self, msg: &UrbMessage, len: usize) -> (r: Result<usize, ClientError>)
        ensures
            match r {
                Ok(n) => n == len && (msg matches UrbMessage::RetSubmit(ret) && ret.status == 0),
                Err(e) => result_means(
                    *msg,
                    DeviceKind::Serial,
                    "URB transfer"@,
                    Err::<Vec<u8>, ClientError>(e),
                ),
            },
    {
        match read_ret_submit(msg, DeviceKind::Serial, "URB transfer") {
            Ok(_) => Ok(len),
            Err(e) => Err(e),
        }
    }

    /// Bits per second.
    pub fn baud_rate(&self) -> (v: u32)
        ensures
            v == self.coding.baud_rate,
    {
        self.coding.baud_rate
    }

    /// Data bits per character.
    pub fn data_bits(&self) -> (v: u8)
        ensures
            v == self.coding.data_bits,
    {
        self.coding.data_bits
    }
}

/// A line coding stands in seven bytes: four of the rate with the low byte
/// first, then the stop bits, the parity and the data bits. Reading takes them
/// from the same places.
pub proof fn law_line_coding_bytes(c: LineCoding, b: [u8; 7], d: LineCoding)
    requires
        call_ensures(LineCoding::to_bytes, (&c,), b),
        call_ensures(LineCoding::from_bytes, (&b,), d),
    ensures
        b@[0] + 256 * b@[1] + 0x10000 * b@[2] + 0x1000000 * b@[3] == c.baud_rate,
        b@[4] == c.stop_bits,
        b@[5] == c.parity,
        b@[6] == c.data_bits,
        d.baud_rate == c.baud_rate,
        d.stop_bits == c.stop_bits,
        d.parity == c.parity,
        d.data_bits == c.data_bits,
{
    law_line_coding_round_trip(c);
    let r = c.baud_rate;
    assert(b@[0] == r % 256 && b@[1] == (r / 256) % 256 && b@[2] == (r / 0x10000) % 256 && b@[3]
        == r / 0x1000000);
}

/// The requests of the class: for a line coding of seven bytes, and for the
/// control lines, where the terminal being ready counts one and a request to
/// send counts two.
pub proof fn law_requests(
    interface: u8,
    dtr: bool,
    rts: bool,
    coding: [u8; 8],
    lines: [u8; 8],
)
    requires
        call_ensures(build_set_line_coding_setup, (interface,), coding),
        call_ensures(build_set_control_line_state_setup, (interface, dtr, rts), lines),
    ensures
        setup_stands(coding@, 0x21, 0x20, 0, interface as int, 7),
        setup_stands(
            lines@,
            0x21,
            0x22,
            (if dtr {
                1int
            } else {
                0
            }) + (if rts {
                2int
            } else {
                0
            }),
            interface as int,
            0,
        ),
{
}

/// A serial device just imported is at 9600 bits per second with eight data
/// bits, no parity and one stop bit; data comes and goes on endpoint two.
pub proof fn law_connected(busid: &str, reply: OpMessage, s: SerialDevice)
    requires
        call_ensures(SerialDevice::connect, (busid, reply), Ok(s)),
    ensures
        reply matches OpMessage::RepImport(rep) && rep.status == 0 && rep.device is Some,
        s.ep_data_in == 0x82,
        s.ep_data_out == 2,
        s.ep_notify is None,
        s.control_interface == 0,
        s.data_interface == 1,
        s.link.next_seqnum == 1,
        forall|v: u32| #[trigger]
            call_ensures(SerialDevice::baud_rate, (&s,), v) ==> v == 9600,
        forall|v: u8| #[trigger]
            call_ensures(SerialDevice::data_bits, (&s,), v) ==> v == 8,
        s.coding.stop_bits == 0,
        s.coding.parity == 0,
{
}

/// A line coding goes to the control interface as its seven bytes, and the
/// state of the control lines as a request without data.
pub proof fn law_settings_sent(
    s: &mut SerialDevice,
    coding: LineCoding,
    dtr: bool,
    rts: bool,
    set_coding: CmdSubmit,
    set_lines: CmdSubmit,
)
    requires
        call_ensures(SerialDevice::set_line_coding, (s, &coding), set_coding),
        call_ensures(SerialDevice::set_control_line_state, (s, dtr, rts), set_lines),
    ensures
        forall|b: [u8; 7]| #[trigger]
            call_ensures(LineCoding::to_bytes, (&coding,), b) ==> sends(
                set_coding,
                old(s).link,
                0,
                b@,
            ),
        setup_stands(set_coding.setup@, 0x21, 0x20, 0, old(s).control_interface as int, 7),
        sends(set_lines, old(s).link, 0, Seq::empty()),
        setup_stands(
            set_lines.setup@,
            0x21,
            0x22,
            (if dtr {
                1int
            } else {
                0
            }) + (if rts {
                2int
            } else {
                0
            }),
            old(s).control_interface as int,
            0,
        ),
        final(s).coding == old(s).coding,
{
}

/// The device has a line coding once the result of setting it has status zero;
/// after every other result it has the coding that it had.
pub proof fn law_coding_taken(
    s: &mut SerialDevice,
    coding: LineCoding,
    msg: UrbMessage,
    r: Result<(), ClientError>,
)
    requires
        call_ensures(SerialDevice::line_coding_set, (s, &coding, &msg), r),
    ensures
        r is Ok <==> (msg matches UrbMessage::RetSubmit(ret) && ret.status == 0),
        r is Ok ==> final(s).coding == coding,
        r is Err ==> final(s).coding == old(s).coding,
        final(s).link == old(s).link,
{
}

/// The initialisation sets the rate, with eight data bits, no parity and one
/// stop bit.
pub proof fn law_initialisation_starts(s: &mut SerialDevice, baud_rate: u32, step: SerialInitStep)
    requires
        call_ensures(SerialDevice::initialize, (s, baud_rate), step),
    ensures
        step matches SerialInitStep::Submit(cmd, at) && {
            let b = bytes_seq(cmd.transfer_buffer);
            &&& at == SerialInit::LineCoding
            &&& sends(cmd, old(s).link, 0, b)
            &&& setup_stands(cmd.setup@, 0x21, 0x20, 0, old(s).control_interface as int, 7)
            &&& b.len() == 7
            &&& b[0] + 256 * b[1] + 0x10000 * b[2] + 0x1000000 * b[3] == baud_rate
            &&& b[4] == 0
            &&& b[5] == 0
            &&& b[6] == 8
        },
{
    let b = line_coding_bytes(plain_coding(baud_rate));
    assert(b[0] == baud_rate % 256 && b[1] == (baud_rate / 256) % 256 && b[2] == (baud_rate
        / 0x10000) % 256 && b[3] == baud_rate / 0x1000000);
}

/// When the rate is set, the device has it, and both control lines are set;
/// when these are set, the initialisation is done.
pub proof fn law_initialisation_goes_on(
    s: &mut SerialDevice,
    at: SerialInit,
    baud_rate: u32,
    msg: UrbMessage,
    r: Result<SerialInitStep, ClientError>,
)
    requires
        call_ensures(SerialDevice::continue_initialize, (s, at, baud_rate, &msg), r),
    ensures
        r is Ok <==> (msg matches UrbMessage::RetSubmit(ret) && ret.status == 0),
        r matches Err(e) ==> e is Serial && *final(s) == *old(s),
        r matches Ok(step) ==> match at {
            SerialInit::LineCoding => step matches SerialInitStep::Submit(cmd, next) && {
                &&& next == SerialInit::ControlLines
                &&& final(s).coding.baud_rate == baud_rate
                &&& final(s).coding.data_bits == 8
                &&& final(s).coding.parity == 0
                &&& final(s).coding.stop_bits == 0
                &&& sends(cmd, old(s).link, 0, Seq::empty())
                &&& setup_stands(cmd.setup@, 0x21, 0x22, 3, old(s).control_interface as int, 0)
            },
            SerialInit::ControlLines => step is Done && *final(s) == *old(s),
        },
{
}

/// Data is asked for from the endpoint that data comes from, as much as there
/// is room for, and goes out whole on the endpoint that data goes to.
pub proof fn law_data_over_the_line(
    s: &mut SerialDevice,
    len: usize,
    data: &[u8],
    read: CmdSubmit,
    write: CmdSubmit,
)
    requires
        call_ensures(SerialDevice::read, (s, len), read),
        call_ensures(SerialDevice::write, (s, data), write),
        len <= u32::MAX,
        data@.len() <= u32::MAX,
    ensures
        asks(read, old(s).link, old(s).ep_data_in as int, len as int),
        sends(write, old(s).link, old(s).ep_data_out as int, data@),
        final(s).link.devid == old(s).link.devid,
{
    lemma_endpoint_number(s.ep_data_in);
    lemma_endpoint_number(s.ep_data_out);
}

/// What was read is copied to the front of the buffer as far as it fits, and
/// what was written counts whole, where the result has status zero; every other
/// result is an error and leaves the buffer as it was.
pub proof fn law_data_results(
    s: SerialDevice,
    msg: UrbMessage,
    buf: &mut [u8],
    len: usize,
    read: Result<usize, ClientError>,
    written: Result<usize, ClientError>,
)
    requires
        call_ensures(SerialDevice::read_result, (&s, &msg, buf), read),
        call_ensures(SerialDevice::write_result, (&s, &msg, len), written),
    ensures
        read is Ok <==> (msg matches UrbMessage::RetSubmit(ret) && ret.status == 0),
        written is Ok <==> (msg matches UrbMessage::RetSubmit(ret) && ret.status == 0),
        written matches Ok(n) ==> n == len,
        final(buf)@.len() == old(buf)@.len(),
        read is Err ==> final(buf)@ == old(buf)@,
        read matches Ok(n) ==> {
            let data = bytes_seq(msg->RetSubmit_0.transfer_buffer);
            &&& n <= data.len() && n <= old(buf)@.len()
            &&& n == data.len() || n == old(buf)@.len()
            &&& forall|i: int| 0 <= i < n ==> #[trigger] final(buf)@[i] == data[i]
            &&& forall|i: int|
                n <= i < old(buf)@.len() ==> #[trigger] final(buf)@[i] == old(buf)@[i]
        },
{
}

} // verus!
