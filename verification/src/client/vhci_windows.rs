//! The Windows driver: the control codes it takes, and what goes in and out.

use vstd::prelude::*;
use vstd::string::*;
use vstd::utf8::*;

use crate::client::error::ClientError;
use crate::client::types::{ImportedDevice, PortStatus};
use crate::endian::{le16_at, le32_at, read_le16, read_le32};
use crate::protocol::device::{fill_front, padded};
use crate::text::{decimal, decimal_string, signed_decimal, signed_decimal_string};

verus! {

/// The control code of a function of the driver: device type `0x22`, buffered,
/// for any access.
pub open spec fn control_code(function: u32) -> u32 {
    (0x22u32 << 16) | (function << 2)
}

/// The control code of a function of the driver.
pub fn ctl_code(function: u32) -> (code: u32)
    ensures
        code == control_code(function),
{
    (0x22u32 << 16) | (function << 2)
}

/// Attach a device.
pub const IOCTL_PLUGIN_HARDWARE: u32 = 0x0022_0004;

/// Detach a device.
pub const IOCTL_UNPLUG_HARDWARE: u32 = 0x0022_0008;

/// List the devices.
pub const IOCTL_GET_IMPORTED: u32 = 0x0022_000c;

/// The control codes are those of the functions 1, 2 and 3.
pub proof fn law_control_codes()
    ensures
        IOCTL_PLUGIN_HARDWARE == control_code(1),
        IOCTL_UNPLUG_HARDWARE == control_code(2),
        IOCTL_GET_IMPORTED == control_code(3),
{
    assert(0x0022_0004u32 == (0x22u32 << 16) | (1u32 << 2)) by (bit_vector);
    assert(0x0022_0008u32 == (0x22u32 << 16) | (2u32 << 2)) by (bit_vector);
    assert(0x0022_000cu32 == (0x22u32 << 16) | (3u32 << 2)) by (bit_vector);
}

/// The path of the driver's device.
pub const VHCI_DEVICE_PATH: &'static str = "\\\\.\\usbip_vhci";

/// Size of the host field.
pub const MAX_HOST_LEN: usize = 256;

/// Size of the service field.
pub const MAX_SERVICE_LEN: usize = 32;

/// Size of the bus ID field.
pub const MAX_BUSID_LEN: usize = 32;

/// What is handed in to attach a device: texts, padded with zeros.
#[derive(Debug, Clone)]
pub struct PluginHardwareRequest {
    /// The host name or address of the server.
    pub host: [u8; 256],
    /// The port of the server, as a text.
    pub service: [u8; 32],
    /// The bus ID of the device.
    pub busid: [u8; 32],
}

/// What is said of a text that is too long for its field.
pub open spec fn too_long(what: Seq<char>, len: nat, max: nat) -> Seq<char> {
    what + " too long: "@ + decimal(len) + " bytes (max "@ + decimal(max) + ")"@
}

fn too_long_error(what: &str, len: usize, max: usize) -> (e: ClientError)
    ensures
        e matches ClientError::VhciNotAvailable { reason } && reason@ == too_long(
            what@,
            len as nat,
            max as nat,
        ),
{
    ClientError::VhciNotAvailable {
        reason: what.to_owned().concat(" too long: ").concat(
            decimal_string(len as u64).as_str(),
        ).concat(" bytes (max ").concat(decimal_string(max as u64).as_str()).concat(")"),
    }
}

/// A port number has at most five digits.
proof fn lemma_port_digits(n: nat)
    requires
        n < 65536,
    ensures
        decimal(n).len() <= 5,
        is_ascii_chars(decimal(n)),
{
    reveal_with_fuel(decimal, 6);
    lemma_decimal_ascii(n);
}

proof fn lemma_decimal_ascii(n: nat)
    ensures
        is_ascii_chars(decimal(n)),
    decreases n,
{
    if n >= 10 {
        lemma_decimal_ascii(n / 10);
        assert(is_ascii_chars(decimal(n / 10)));
    }
}

impl PluginHardwareRequest {
    /// The request to attach a device of a server. A host or a bus ID that
    /// does not fit its field with a zero behind it is refused.
    pub fn new(server: &str, port: u16, busid: &str) -> (r: Result<Self, ClientError>)
        ensures
            match r {
                Ok(q) => {
                    &&& server.spec_bytes().len() < 256
                    &&& busid.spec_bytes().len() < 32
                    &&& q.host@ == padded(server.spec_bytes(), 256)
                    &&& q.service@ == padded(encode_utf8(decimal(port as nat)), 32)
                    &&& q.busid@ == padded(busid.spec_bytes(), 32)
                },
                Err(ClientError::VhciNotAvailable { reason }) => {
                    ||| server.spec_bytes().len() >= 256 && reason@ == too_long(
                        "hostname"@,
                        server.spec_bytes().len(),
                        255,
                    )
                    ||| server.spec_bytes().len() < 256 && busid.spec_bytes().len() >= 32
                        && reason@ == too_long("busid"@, busid.spec_bytes().len(), 31)
                },
                Err(_) => false,
            },
    {
        let mut host: [u8; 256] = [0u8; 256];
        let mut service: [u8; 32] = [0u8; 32];
        let mut id: [u8; 32] = [0u8; 32];
        let host_bytes = server.as_bytes();
        if host_bytes.len() >= MAX_HOST_LEN {
            return Err(too_long_error("hostname", host_bytes.len(), MAX_HOST_LEN - 1));
        }
        fill_front(&mut host, host_bytes, host_bytes.len());
        let port_string = decimal_string(port as u64);
        let port_bytes = port_string.as_str().as_bytes();
        proof {
            lemma_port_digits(port as nat);
            is_ascii_chars_encode_utf8(decimal(port as nat));
        }
        fill_front(&mut service, port_bytes, port_bytes.len());
        let busid_bytes = busid.as_bytes();
        if busid_bytes.len() >= MAX_BUSID_LEN {
            return Err(too_long_error("busid", busid_bytes.len(), MAX_BUSID_LEN - 1));
        }
        fill_front(&mut id, busid_bytes, busid_bytes.len());
        Ok(PluginHardwareRequest { host, service, busid: id })
    }
}

/// What comes back from attaching a device.
#[derive(Debug, Clone, Copy)]
pub struct PluginHardwareReply {
    /// The virtual port.
    pub port: i32,
}

impl Default for PluginHardwareReply {
    /// Port 0.
    fn default() -> (r: Self)
        ensures
            r.port == 0,
    {
        PluginHardwareReply { port: 0 }
    }
}

impl PluginHardwareReply {
    /// The virtual port, unless it is negative.
    pub fn attached_port(&self) -> (r: Result<u32, ClientError>)
        ensures
            match r {
                Ok(p) => self.port >= 0 && p == self.port,
                Err(ClientError::VhciNotAvailable { reason }) => self.port < 0 && reason@
                    == "driver returned negative port: "@ + signed_decimal(self.port as int),
                Err(_) => false,
            },
    {
        if self.port < 0 {
            return Err(
                ClientError::VhciNotAvailable {
                    reason: "driver returned negative port: ".to_owned().concat(
                        signed_decimal_string(self.port as i64).as_str(),
                    ),
                },
            );
        }
        Ok(self.port as u32)
    }
}

/// What is handed in to detach a device.
#[derive(Debug, Clone, Copy)]
pub struct UnplugHardwareRequest {
    /// The virtual port, or -1 for all.
    pub port: i32,
}

impl UnplugHardwareRequest {
    /// The request to detach the device of a port.
    pub fn for_port(port: u32) -> (r: Self)
        ensures
            r.port == port as i32,
    {
        UnplugHardwareRequest { port: port as i32 }
    }
}

/// A device in the list that the driver gives.
#[derive(Debug, Clone, Copy)]
pub struct ImportedDeviceEntry {
    pub port: i32,
    /// Zero if the port is free.
    pub status: u32,
    pub speed: u32,
    pub vendor_id: u16,
    pub product_id: u16,
    pub devid: u32,
}

impl Default for ImportedDeviceEntry {
    /// All zeros.
    fn default() -> (r: Self)
        ensures
            r.port == 0,
            r.status == 0,
            r.speed == 0,
            r.vendor_id == 0,
            r.product_id == 0,
            r.devid == 0,
    {
        ImportedDeviceEntry {
            port: 0,
            status: 0,
            speed: 0,
            vendor_id: 0,
            product_id: 0,
            devid: 0,
        }
    }
}

/// Size of a device in the list that the driver gives.
pub const IMPORTED_ENTRY_SIZE: usize = 20;

/// The device that stands at `i` in the list that the driver gives.
pub open spec fn entry_at(b: Seq<u8>, i: int) -> ImportedDeviceEntry {
    ImportedDeviceEntry {
        port: le32_at(b, i) as i32,
        status: le32_at(b, i + 4),
        speed: le32_at(b, i + 8),
        vendor_id: le16_at(b, i + 12),
        product_id: le16_at(b, i + 14),
        devid: le32_at(b, i + 16),
    }
}

/// An entry of the driver's list as an imported device: the server and the
/// bus ID are not known.
pub open spec fn imported_of(e: ImportedDeviceEntry) -> ImportedDevice {
    ImportedDevice {
        port: e.port as u32,
        status: if e.status == 0 {
            PortStatus::Free
        } else {
            PortStatus::InUse
        },
        speed: e.speed,
        devid: e.devid,
        server_addr: None,
        busid: None,
    }
}

/// The devices in what the driver returned. What does not fill an entry is
/// left out.
pub fn list_ports(returned: &[u8]) -> (r: Vec<ImportedDevice>)
    ensures
        r@ == Seq::new(
            (returned@.len() / 20) as nat,
            |i: int| imported_of(entry_at(returned@, 20 * i)),
        ),
{
    let count: usize = returned.len() / IMPORTED_ENTRY_SIZE;
    let mut out: Vec<ImportedDevice> = Vec::new();
    let mut i: usize = 0;
    while i < count
        invariant
            i <= count,
            count == returned@.len() / 20,
            returned@.len() <= usize::MAX,
            out@ =~= Seq::new(i as nat, |j: int| imported_of(entry_at(returned@, 20 * j))),
        decreases count - i,
    {
        let at: usize = i * IMPORTED_ENTRY_SIZE;
        let entry = ImportedDeviceEntry {
            port: read_le32(returned, at) as i32,
            status: read_le32(returned, at + 4),
            speed: read_le32(returned, at + 8),
            vendor_id: read_le16(returned, at + 12),
            product_id: read_le16(returned, at + 14),
            devid: read_le32(returned, at + 16),
        };
        let status = if entry.status == 0 {
            PortStatus::Free
        } else {
            PortStatus::InUse
        };
        out.push(
            ImportedDevice {
                port: entry.port as u32,
                status,
                speed: entry.speed,
                devid: entry.devid,
                server_addr: None,
                busid: None,
            },
        );
        i = i + 1;
    }
    out
}

/// What is handed in to attach a device stands at the front of its fields, with
/// zeros behind: the server, the digits of the port and the bus ID. It can be
/// refused only for a server or a bus ID that fills its field.
pub proof fn law_plugin_request(
    server: &str,
    port: u16,
    busid: &str,
    r: Result<PluginHardwareRequest, ClientError>,
)
    requires
        call_ensures(PluginHardwareRequest::new, (server, port, busid), r),
    ensures
        r is Ok <==> server.spec_bytes().len() < 256 && busid.spec_bytes().len() < 32,
        r matches Ok(q) ==> {
            let digits = encode_utf8(decimal(port as nat));
            &&& forall|i: int|
                0 <= i < server.spec_bytes().len() ==> #[trigger] q.host@[i]
                    == server.spec_bytes()[i]
            &&& forall|i: int|
                server.spec_bytes().len() <= i < 256 ==> #[trigger] q.host@[i] == 0
            &&& digits.len() <= 5
            &&& forall|i: int|
                0 <= i < digits.len() ==> #[trigger] q.service@[i] == digits[i]
            &&& forall|i: int| digits.len() <= i < 32 ==> #[trigger] q.service@[i] == 0
            &&& forall|i: int|
                0 <= i < busid.spec_bytes().len() ==> #[trigger] q.busid@[i]
                    == busid.spec_bytes()[i]
            &&& forall|i: int| busid.spec_bytes().len() <= i < 32 ==> #[trigger] q.busid@[i] == 0
        },
{
    lemma_port_digits(port as nat);
    is_ascii_chars_encode_utf8(decimal(port as nat));
}

/// The port that the driver attached a device to is the port itself, and one
/// below zero is none.
pub proof fn law_attached_port(reply: PluginHardwareReply, r: Result<u32, ClientError>)
    requires
        call_ensures(PluginHardwareReply::attached_port, (&reply,), r),
    ensures
        r is Ok <==> reply.port >= 0,
        r matches Ok(p) ==> p == reply.port,
{
}

/// A port that can be attached to is detached under its own number.
pub proof fn law_detached_port(port: u32, q: UnplugHardwareRequest)
    requires
        call_ensures(UnplugHardwareRequest::for_port, (port,), q),
        port <= i32::MAX,
    ensures
        q.port == port,
{
    assert(port <= 0x7fff_ffff ==> port as i32 == port) by (bit_vector);
}

/// The driver's list has one device for every twenty bytes: the port, whether
/// it is in use, the speed, and behind the vendor and the product the number of
/// the device, all with the low byte first.
pub proof fn law_ports_listed(returned: &[u8], r: Vec<ImportedDevice>, i: int)
    requires
        call_ensures(list_ports, (returned,), r),
        0 <= i < r@.len(),
    ensures
        20 * r@.len() <= returned@.len() < 20 * (r@.len() + 1),
        r@[i].port == le32_at(returned@, 20 * i),
        r@[i].status == PortStatus::Free <==> le32_at(returned@, 20 * i + 4) == 0,
        r@[i].status == PortStatus::InUse <==> le32_at(returned@, 20 * i + 4) != 0,
        r@[i].speed == le32_at(returned@, 20 * i + 8),
        r@[i].devid == le32_at(returned@, 20 * i + 16),
        r@[i].server_addr is None,
        r@[i].busid is None,
{
    let b = returned@;
    let port = le32_at(b, 20 * i);
    assert((port as i32) as u32 == port) by (bit_vector);
    assert(r@[i] == imported_of(entry_at(b, 20 * i)));
}

/// The control codes grow by four with the function, from that of the device
/// type on.
pub proof fn law_control_code(function: u32, code: u32)
    requires
        function < 0x4000,
        call_ensures(ctl_code, (function,), code),
    ensures
        code == 0x22_0000 + 4 * function,
{
    assert(function < 0x4000 ==> (0x22u32 << 16) | (function << 2) == 0x22_0000 + 4 * function)
        by (bit_vector);
}

} // verus!
