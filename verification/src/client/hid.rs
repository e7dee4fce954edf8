//! Input devices: report descriptors, reports, and the requests of their class.

use vstd::prelude::*;
use vstd::string::*;

use crate::client::engine::devid_of;
use crate::client::error::ClientError;
use crate::client::transfer::{
    asks, lemma_endpoint_number, read_ret_submit, result_means, sends, setup_stands, DeviceKind, Link,
};
use crate::protocol::buf::bytes_seq;
use crate::protocol::discovery::OpMessage;
use crate::protocol::urb::{CmdSubmit, UrbMessage};

verus! {

/// The endpoint that input reports come from.
pub const DEFAULT_EP_IN: u8 = 0x81;

/// The endpoint that output reports go to.
pub const DEFAULT_EP_OUT: u8 = 0x02;

/// How much of a report descriptor is asked for.
pub const DEFAULT_REPORT_DESCRIPTOR_MAX_LEN: u16 = 4096;

/// How much of an input report is asked for.
pub const INPUT_REPORT_LEN: u32 = 64;

/// The descriptor type of a report descriptor.
pub const HID_DESCRIPTOR_TYPE_REPORT: u8 = 0x22;

/// The request to set the idle rate.
pub const HID_REQUEST_SET_IDLE: u8 = 0x0a;

/// The request to set the protocol.
pub const HID_REQUEST_SET_PROTOCOL: u8 = 0x0b;

/// The request to set a report.
pub const HID_REQUEST_SET_REPORT: u8 = 0x09;

/// A request into the host, to an interface.
pub const USB_RT_HID_INTERFACE_IN: u8 = 0x81;

/// A request of the class out of the host, to an interface.
pub const USB_RT_HID_INTERFACE_OUT: u8 = 0x21;

/// The request for a descriptor.
pub const USB_REQUEST_GET_DESCRIPTOR: u8 = 0x06;

/// The low byte of a length and its high byte.
pub open spec fn length_bytes(length: u16) -> Seq<u8> {
    seq![(length & 0xff) as u8, ((length >> 8) & 0xff) as u8]
}

/// The setup packet that asks for a report descriptor.
pub fn build_get_report_descriptor_setup(interface: u8, length: u16) -> (s: [u8; 8])
    ensures
        s@ == seq![0x81u8, 0x06u8, 0u8, 0x22u8, interface, 0u8] + length_bytes(length),
{
    let s: [u8; 8] = [
        USB_RT_HID_INTERFACE_IN,
        USB_REQUEST_GET_DESCRIPTOR,
        0,
        HID_DESCRIPTOR_TYPE_REPORT,
        interface,
        0,
        (length & 0xff) as u8,
        ((length >> 8) & 0xff) as u8,
    ];
    assert(s@ =~= seq![0x81u8, 0x06u8, 0u8, 0x22u8, interface, 0u8] + length_bytes(length));
    s
}

/// The setup packet that sets the idle rate.
pub fn build_set_idle_setup(interface: u8, duration: u8, report_id: u8) -> (s: [u8; 8])
    ensures
        s@ == seq![0x21u8, 0x0au8, report_id, duration, interface, 0u8, 0u8, 0u8],
{
    let s: [u8; 8] = [
        USB_RT_HID_INTERFACE_OUT,
        HID_REQUEST_SET_IDLE,
        report_id,
        duration,
        interface,
        0,
        0,
        0,
    ];
    assert(s@ =~= seq![0x21u8, 0x0au8, report_id, duration, interface, 0u8, 0u8, 0u8]);
    s
}

/// The setup packet that sets the protocol: 0 boot, 1 report.
pub fn build_set_protocol_setup(interface: u8, protocol: u8) -> (s: [u8; 8])
    ensures
        s@ == seq![0x21u8, 0x0bu8, protocol, 0u8, interface, 0u8, 0u8, 0u8],
{
    let s: [u8; 8] = [
        USB_RT_HID_INTERFACE_OUT,
        HID_REQUEST_SET_PROTOCOL,
        protocol,
        0,
        interface,
        0,
        0,
        0,
    ];
    assert(s@ =~= seq![0x21u8, 0x0bu8, protocol, 0u8, interface, 0u8, 0u8, 0u8]);
    s
}

/// The setup packet that sets an output report.
pub fn build_set_report_setup(interface: u8, length: u16) -> (s: [u8; 8])
    ensures
        s@ == seq![0x21u8, 0x09u8, 0u8, 2u8, interface, 0u8] + length_bytes(length),
{
    let s: [u8; 8] = [
        USB_RT_HID_INTERFACE_OUT,
        HID_REQUEST_SET_REPORT,
        0,
        2,
        interface,
        0,
        (length & 0xff) as u8,
        ((length >> 8) & 0xff) as u8,
    ];
    assert(s@ =~= seq![0x21u8, 0x09u8, 0u8, 2u8, interface, 0u8] + length_bytes(length));
    s
}

/// An imported input device.
#[derive(Debug)]
pub struct HidDevice {
    pub link: Link,
    /// The endpoint that input reports come from.
    pub ep_in: u8,
    /// The endpoint that output reports go to, if there is one.
    pub ep_out: Option<u8>,
    pub report_descriptor: Vec<u8>,
    pub vendor_id: u16,
    pub product_id: u16,
    pub interface_number: u8,
}

/// Where the initialisation of an input device stands: which result is awaited.
#[derive(Debug, Clone, Copy, PartialEq, Eq, Structural)]
pub enum HidInit {
    Descriptor,
    Idle,
    Protocol,
}

/// What comes after a result in the initialisation.
#[derive(Debug)]
pub enum HidInitStep {
    /// Submit this, and await its result.
    Submit(CmdSubmit, HidInit),
    /// The device is initialised.
    Done,
}

impl HidDevice {
    /// The device from the server's answer to the import, with the usual
    /// endpoints.
    pub fn connect(busid: &str, reply: OpMessage) -> (r: Result<Self, ClientError>)
        ensures
            match reply {
                OpMessage::RepImport(rep) => if rep.status != 0 {
                    r matches Err(ClientError::ImportRejected { busid: b, status }) && b@ == busid@
                        && status == rep.status
                } else {
                    match rep.device {
                        Some(d) => r matches Ok(h) && {
                            &&& h.link == (Link { devid: devid_of(d), next_seqnum: 1 })
                            &&& h.ep_in == DEFAULT_EP_IN
                            &&& h.ep_out == Some(DEFAULT_EP_OUT)
                            &&& h.report_descriptor@ == Seq::<u8>::empty()
                            &&& h.vendor_id == d.id_vendor
                            &&& h.product_id == d.id_product
                            &&& h.interface_number == 0
                        },
                        None => r matches Err(ClientError::ImportMissingDevice),
                    }
                },
                _ => r matches Err(
                    ClientError::Protocol(
                        crate::protocol::error::ProtocolError::InvalidOpCode(0),
                    ),
                ),
            },
    {
        match Link::connect(busid, reply) {
            Ok((link, d)) => Ok(
                HidDevice {
                    link,
                    ep_in: DEFAULT_EP_IN,
                    ep_out: Some(DEFAULT_EP_OUT),
                    report_descriptor: Vec::new(),
                    vendor_id: d.id_vendor,
                    product_id: d.id_product,
                    interface_number: 0,
                },
            ),
            Err(e) => Err(e),
        }
    }

    /// The same device after a submission.
    pub open spec fn submitted(self, after: HidDevice) -> bool {
        &&& after.link == self.link.after()
        &&& after.ep_in == self.ep_in
        &&& after.ep_out == self.ep_out
        &&& after.vendor_id == self.vendor_id
        &&& after.product_id == self.product_id
        &&& after.interface_number == self.interface_number
    }

    /// Start the initialisation: ask for the report descriptor.
    pub fn initialize(&mut self) -> (step: HidInitStep)
        ensures
            old(self).submitted(*final(self)),
            final(self).report_descriptor == old(self).report_descriptor,
            step matches HidInitStep::Submit(cmd, at) && at == HidInit::Descriptor && cmd@
                == old(self).link.control_in_model(
                seq![0x81u8, 0x06u8, 0u8, 0x22u8, old(self).interface_number, 0u8] + length_bytes(
                    4096,
                ),
                4096,
            ),
    {
        let len: u16 = DEFAULT_REPORT_DESCRIPTOR_MAX_LEN;
        let setup = build_get_report_descriptor_setup(self.interface_number, len);
        HidInitStep::Submit(self.link.control_in(&setup, len as u32), HidInit::Descriptor)
    }

    /// Go on with the initialisation after a result: keep the report
    /// descriptor, then set the idle rate to indefinite for all reports, then
    /// choose the report protocol. A result that is an error ends it.
    pub fn continue_initialize(&mut self, at: HidInit, msg: &UrbMessage) -> (r: Result<
        HidInitStep,
        ClientError,
    >)
        ensures
            match r {
                Err(e) => {
                    &&& *final(self) == *old(self)
                    &&& result_means(
                        *msg,
                        DeviceKind::Hid,
                        "URB transfer"@,
                        Err::<Vec<u8>, ClientError>(e),
                    )
                },
                Ok(step) => {
                    &&& msg matches UrbMessage::RetSubmit(ret) && ret.status == 0
                    &&& match at {
                        HidInit::Descriptor => {
                            &&& old(self).submitted(*final(self))
                            &&& final(self).report_descriptor@ == bytes_seq(
                                msg->RetSubmit_0.transfer_buffer,
                            )
                            &&& step matches HidInitStep::Submit(cmd, next) && next == HidInit::Idle
                                && cmd@ == old(self).link.control_out_model(
                                seq![
                                    0x21u8,
                                    0x0au8,
                                    0u8,
                                    0u8,
                                    old(self).interface_number,
                                    0u8,
                                    0u8,
                                    0u8,
                                ],
                                Seq::empty(),
                            )
                        },
                        HidInit::Idle => {
                            &&& old(self).submitted(*final(self))
                            &&& final(self).report_descriptor == old(self).report_descriptor
                            &&& step matches HidInitStep::Submit(cmd, next) && next
                                == HidInit::Protocol && cmd@ == old(self).link.control_out_model(
                                seq![
                                    0x21u8,
                                    0x0bu8,
                                    1u8,
                                    0u8,
                                    old(self).interface_number,
                                    0u8,
                                    0u8,
                                    0u8,
                                ],
                                Seq::empty(),
                            )
                        },
                        HidInit::Protocol => *final(self) == *old(self) && step
                            == HidInitStep::Done,
                    }
                },
            },
    {
        let data = match read_ret_submit(msg, DeviceKind::Hid, "URB transfer") {
            Ok(d) => d,
            Err(e) => {
                return Err(e);
            },
        };
        let nothing: [u8; 0] = [];
        assert(nothing@ =~= Seq::<u8>::empty());
        match at {
            HidInit::Descriptor => {
                self.report_descriptor = data;
                let setup = build_set_idle_setup(self.interface_number, 0, 0);
                Ok(
                    HidInitStep::Submit(
                        self.link.control_out(&setup, nothing.as_slice()),
                        HidInit::Idle,
                    ),
                )
            },
            HidInit::Idle => {
                let setup = build_set_protocol_setup(self.interface_number, 1);
                Ok(
                    HidInitStep::Submit(
                        self.link.control_out(&setup, nothing.as_slice()),
                        HidInit::Protocol,
                    ),
                )
            },
            HidInit::Protocol => Ok(HidInitStep::Done),
        }
    }

    /// Ask for an input report. Its result is read as that of any transfer.
    pub fn read_report(&mut self) -> (cmd: CmdSubmit)
        ensures
            old(self).submitted(*final(self)),
            final(self).report_descriptor == old(self).report_descriptor,
            cmd@ == old(self).link.in_model(old(self).ep_in, INPUT_REPORT_LEN),
    {
        self.link.receive(self.ep_in, INPUT_REPORT_LEN)
    }

    /// Send an output report: on its endpoint where there is one, else as a
    /// request of the class.
    pub fn write_report(&mut self, report: &[u8]) -> (cmd: CmdSubmit)
        ensures
            old(self).submitted(*final(self)),
            final(self).report_descriptor == old(self).report_descriptor,
            cmd@ == match old(self).ep_out {
                Some(ep) => old(self).link.out_model(ep, report@),
                None => old(self).link.control_out_model(
                    seq![0x21u8, 0x09u8, 0u8, 2u8, old(self).interface_number, 0u8] + length_bytes(
                        report@.len() as u16,
                    ),
                    report@,
                ),
            },
    {
        match self.ep_out {
            Some(ep) => self.link.send(ep, report),
            None => {
                let setup = build_set_report_setup(self.interface_number, report.len() as u16);
                self.link.control_out(&setup, report)
            },
        }
    }

    /// What the result of reading or writing a report means.
    pub fn report_result(&self, msg: &UrbMessage) -> (r: Result<Vec<u8>, ClientError>)
        ensures
            result_means(*msg, DeviceKind::Hid, "URB transfer"@, r),
    {
        read_ret_submit(msg, DeviceKind::Hid, "URB transfer")
    }

    /// The report descriptor.
    pub fn report_descriptor(&self) -> (d: &[u8])
        ensures
            d@ == self.report_descriptor@,
    {
        self.report_descriptor.as_slice()
    }

    /// The vendor ID.
    pub fn vendor_id(&self) -> (v: u16)
        ensures
            v == self.vendor_id,
    {
        self.vendor_id
    }

    /// The product ID.
    pub fn product_id(&self) -> (v: u16)
        ensures
            v == self.product_id,
    {
        self.product_id
    }

    /// The interface number.
    pub fn interface_number(&self) -> (v: u8)
        ensures
            v == self.interface_number,
    {
        self.interface_number
    }
}

proof fn lemma_length_bytes(length: u16)
    ensures
        length_bytes(length)[0] + 256 * length_bytes(length)[1] == length,
{
    assert(((length & 0xff) as u8) + 256 * (((length >> 8) & 0xff) as u8) == length)
        by (bit_vector);
}

/// The requests of the class: for the report descriptor (into the host, kind
/// 0x22), for an idle rate (the duration above the report), for a protocol and
/// for an output report (kind 2).
pub proof fn law_requests(
    interface: u8,
    length: u16,
    duration: u8,
    report_id: u8,
    protocol: u8,
    descriptor: [u8; 8],
    idle: [u8; 8],
    choice: [u8; 8],
    report: [u8; 8],
)
    requires
        call_ensures(build_get_report_descriptor_setup, (interface, length), descriptor),
        call_ensures(build_set_idle_setup, (interface, duration, report_id), idle),
        call_ensures(build_set_protocol_setup, (interface, protocol), choice),
        call_ensures(build_set_report_setup, (interface, length), report),
    ensures
        setup_stands(descriptor@, 0x81, 6, 0x2200, interface as int, length as int),
        setup_stands(idle@, 0x21, 10, 256 * duration + report_id, interface as int, 0),
        setup_stands(choice@, 0x21, 11, protocol as int, interface as int, 0),
        setup_stands(report@, 0x21, 9, 0x200, interface as int, length as int),
{
    lemma_length_bytes(length);
    let low = length_bytes(length)[0];
    let high = length_bytes(length)[1];
    assert(descriptor@ =~= seq![0x81u8, 0x06u8, 0u8, 0x22u8, interface, 0u8, low, high]);
    assert(report@ =~= seq![0x21u8, 0x09u8, 0u8, 2u8, interface, 0u8, low, high]);
}

/// An input device just imported has the vendor and the product of the device
/// that the server described; its reports come from endpoint one and go to
/// endpoint two.
pub proof fn law_connected(busid: &str, reply: OpMessage, h: HidDevice)
    requires
        call_ensures(HidDevice::connect, (busid, reply), Ok(h)),
    ensures
        reply matches OpMessage::RepImport(rep) && rep.status == 0 && (rep.device matches Some(d)
            && h.vendor_id == d.id_vendor && h.product_id == d.id_product),
        h.ep_in == 0x81,
        h.ep_out == Some(2u8),
        h.interface_number == 0,
        h.report_descriptor@.len() == 0,
        h.link.next_seqnum == 1,
        forall|v: u16| #[trigger]
            call_ensures(HidDevice::vendor_id, (&h,), v) ==> v == h.vendor_id,
        forall|v: u16| #[trigger]
            call_ensures(HidDevice::product_id, (&h,), v) ==> v == h.product_id,
{
}

/// The initialisation starts with a question for up to 4096 bytes of the report
/// descriptor of the device's interface.
pub proof fn law_initialisation_starts(h: &mut HidDevice, step: HidInitStep)
    requires
        call_ensures(HidDevice::initialize, (h,), step),
    ensures
        step matches HidInitStep::Submit(cmd, at) && {
            &&& at == HidInit::Descriptor
            &&& asks(cmd, old(h).link, 0, 4096)
            &&& setup_stands(
                cmd.setup@,
                0x81,
                6,
                0x2200,
                old(h).interface_number as int,
                4096,
            )
        },
        final(h).interface_number == old(h).interface_number,
        final(h).report_descriptor@ == old(h).report_descriptor@,
{
    lemma_length_bytes(4096);
    let low = length_bytes(4096)[0];
    let high = length_bytes(4096)[1];
    assert(seq![0x81u8, 0x06u8, 0u8, 0x22u8, h.interface_number, 0u8] + length_bytes(4096)
        =~= seq![0x81u8, 0x06u8, 0u8, 0x22u8, h.interface_number, 0u8, low, high]);
}

/// The initialisation keeps the report descriptor that comes, then asks for no
/// idle reports, then chooses the report protocol, and is done; a result that
/// is an error changes nothing and ends it.
pub proof fn law_initialisation_goes_on(
    h: &mut HidDevice,
    at: HidInit,
    msg: UrbMessage,
    r: Result<HidInitStep, ClientError>,
)
    requires
        call_ensures(HidDevice::continue_initialize, (h, at, &msg), r),
    ensures
        r is Ok <==> (msg matches UrbMessage::RetSubmit(ret) && ret.status == 0),
        r matches Err(e) ==> e is Hid && *final(h) == *old(h),
        r matches Ok(step) ==> match at {
            HidInit::Descriptor => step matches HidInitStep::Submit(cmd, next) && {
                &&& next == HidInit::Idle
                &&& final(h).report_descriptor@ == bytes_seq(msg->RetSubmit_0.transfer_buffer)
                &&& sends(cmd, old(h).link, 0, Seq::empty())
                &&& setup_stands(cmd.setup@, 0x21, 10, 0, old(h).interface_number as int, 0)
            },
            HidInit::Idle => step matches HidInitStep::Submit(cmd, next) && {
                &&& next == HidInit::Protocol
                &&& final(h).report_descriptor@ == old(h).report_descriptor@
                &&& sends(cmd, old(h).link, 0, Seq::empty())
                &&& setup_stands(cmd.setup@, 0x21, 11, 1, old(h).interface_number as int, 0)
            },
            HidInit::Protocol => step is Done && *final(h) == *old(h),
        },
{
}

/// An input report is asked for from the endpoint that reports come from, in a
/// buffer of 64 bytes.
pub proof fn law_report_asked(h: &mut HidDevice, cmd: CmdSubmit)
    requires
        call_ensures(HidDevice::read_report, (h,), cmd),
    ensures
        asks(cmd, old(h).link, old(h).ep_in as int, 64),
        forall|i: int| 0 <= i < 8 ==> #[trigger] cmd.setup@[i] == 0,
{
    lemma_endpoint_number(h.ep_in);
}

/// An output report goes out whole, on the endpoint for reports where there is
/// one; else on the control endpoint, as a request that gives its length.
pub proof fn law_report_sent(h: &mut HidDevice, report: &[u8], cmd: CmdSubmit)
    requires
        call_ensures(HidDevice::write_report, (h, report), cmd),
        report@.len() <= u16::MAX,
    ensures
        match old(h).ep_out {
            Some(ep) => sends(cmd, old(h).link, ep as int, report@),
            None => sends(cmd, old(h).link, 0, report@) && setup_stands(
                cmd.setup@,
                0x21,
                9,
                0x200,
                old(h).interface_number as int,
                report@.len() as int,
            ),
        },
{
    match h.ep_out {
        Some(ep) => {
            lemma_endpoint_number(ep);
        },
        None => {
            let length = report@.len() as u16;
            lemma_length_bytes(length);
            let low = length_bytes(length)[0];
            let high = length_bytes(length)[1];
            assert(cmd.setup@ =~= seq![
                0x21u8,
                0x09u8,
                0u8,
                2u8,
                h.interface_number,
                0u8,
                low,
                high,
            ]);
        },
    }
}

} // verus!
