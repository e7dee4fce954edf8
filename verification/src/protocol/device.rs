//! Device and interface descriptors, as they stand in a device list and in the
//! answer to an import.

use vstd::prelude::*;
use vstd::slice::slice_subrange;
use vstd::string::*;
use vstd::utf8::*;

use crate::endian::{be16, be16_at, be32, be32_at, lemma_be16_at, lemma_be32_at};
use crate::protocol::buf::{get_array, get_u16, get_u32, get_u8, put_slice, put_u16, put_u32, put_u8};
use crate::protocol::error::ProtocolError;
use crate::protocol::wire::{
    encodings, lemma_encodings_at, lemma_encodings_len, lemma_skip_skip, too_short, WireFormat,
};
use crate::text::{decimal, decimal_string};

verus! {

/// Size of the device path field.
pub const DEVICE_PATH_SIZE: usize = 256;

/// Size of the bus ID field.
pub const BUSID_SIZE: usize = 32;

/// A bus ID field: ASCII, padded with zeros.
pub type BusId = [u8; 32];

/// Size of a device descriptor on the wire, without its interfaces.
pub const USB_DEVICE_WIRE_SIZE: usize = 312;

/// Size of an interface descriptor on the wire.
pub const USB_INTERFACE_WIRE_SIZE: usize = 4;

/// An interface of a device.
#[derive(Debug, Clone, Copy, PartialEq, Eq, Structural)]
pub struct UsbInterface {
    pub interface_class: u8,
    pub interface_subclass: u8,
    pub interface_protocol: u8,
    /// Alignment byte.
    pub padding: u8,
}

/// A USB device as the protocol describes it.
#[derive(Debug, Clone, PartialEq, Eq)]
pub struct UsbDevice {
    /// The path of the device on its host, padded with zeros.
    pub path: [u8; 256],
    /// The bus ID, such as `1-2.3`, padded with zeros.
    pub busid: BusId,
    pub busnum: u32,
    pub devnum: u32,
    pub speed: u32,
    pub id_vendor: u16,
    pub id_product: u16,
    pub bcd_device: u16,
    pub device_class: u8,
    pub device_subclass: u8,
    pub device_protocol: u8,
    pub configuration_value: u8,
    pub num_configurations: u8,
    pub num_interfaces: u8,
    /// The interfaces, where the message holds them.
    pub interfaces: Vec<UsbInterface>,
}

/// What a device descriptor says.
pub struct UsbDeviceModel {
    pub path: Seq<u8>,
    pub busid: Seq<u8>,
    pub busnum: u32,
    pub devnum: u32,
    pub speed: u32,
    pub id_vendor: u16,
    pub id_product: u16,
    pub bcd_device: u16,
    pub device_class: u8,
    pub device_subclass: u8,
    pub device_protocol: u8,
    pub configuration_value: u8,
    pub num_configurations: u8,
    pub num_interfaces: u8,
    pub interfaces: Seq<UsbInterface>,
}

impl View for UsbDevice {
    type V = UsbDeviceModel;

    open spec fn view(&self) -> UsbDeviceModel {
        UsbDeviceModel {
            path: self.path@,
            busid: self.busid@,
            busnum: self.busnum,
            devnum: self.devnum,
            speed: self.speed,
            id_vendor: self.id_vendor,
            id_product: self.id_product,
            bcd_device: self.bcd_device,
            device_class: self.device_class,
            device_subclass: self.device_subclass,
            device_protocol: self.device_protocol,
            configuration_value: self.configuration_value,
            num_configurations: self.num_configurations,
            num_interfaces: self.num_interfaces,
            interfaces: self.interfaces@,
        }
    }
}

impl UsbDeviceModel {
    /// The fields have their sizes.
    pub open spec fn well_sized(self) -> bool {
        &&& self.path.len() == DEVICE_PATH_SIZE
        &&& self.busid.len() == BUSID_SIZE
    }

    /// The same device without its interfaces.
    pub open spec fn bare(self) -> UsbDeviceModel {
        UsbDeviceModel { interfaces: Seq::empty(), ..self }
    }
}

/// The interface whose descriptor stands at `i`.
pub open spec fn interface_at(b: Seq<u8>, i: int) -> UsbInterface {
    UsbInterface {
        interface_class: b[i],
        interface_subclass: b[i + 1],
        interface_protocol: b[i + 2],
        padding: b[i + 3],
    }
}

/// The device whose descriptor stands at the front of `b`.
pub open spec fn device_at(b: Seq<u8>) -> UsbDeviceModel {
    UsbDeviceModel {
        path: b.subrange(0, 256),
        busid: b.subrange(256, 288),
        busnum: be32_at(b, 288),
        devnum: be32_at(b, 292),
        speed: be32_at(b, 296),
        id_vendor: be16_at(b, 300),
        id_product: be16_at(b, 302),
        bcd_device: be16_at(b, 304),
        device_class: b[306],
        device_subclass: b[307],
        device_protocol: b[308],
        configuration_value: b[309],
        num_configurations: b[310],
        num_interfaces: b[311],
        interfaces: Seq::empty(),
    }
}

impl WireFormat for UsbInterface {
    type Model = UsbInterface;

    open spec fn model(&self) -> UsbInterface {
        *self
    }

    open spec fn encoding(m: UsbInterface) -> Seq<u8> {
        seq![m.interface_class, m.interface_subclass, m.interface_protocol, m.padding]
    }

    open spec fn decoding(b: Seq<u8>) -> (Result<UsbInterface, ProtocolError>, int) {
        if b.len() < 4 {
            (Err(too_short(4, b.len() as int)), 0)
        } else {
            (Ok(interface_at(b, 0)), 4)
        }
    }

    open spec fn size(m: UsbInterface) -> nat {
        4
    }

    fn encode(&self, buf: &mut Vec<u8>) {
        put_u8(buf, self.interface_class);
        put_u8(buf, self.interface_subclass);
        put_u8(buf, self.interface_protocol);
        put_u8(buf, self.padding);
        assert(buf@ =~= old(buf)@ + Self::encoding(*self));
    }

    fn decode(buf: &mut &[u8]) -> (r: Result<Self, ProtocolError>) {
        broadcast use lemma_skip_skip;

        let ghost b = buf@;
        if buf.len() < USB_INTERFACE_WIRE_SIZE {
            assert(b.skip(0) =~= b);
            return Err(
                ProtocolError::BufferTooShort {
                    needed: USB_INTERFACE_WIRE_SIZE,
                    available: buf.len(),
                },
            );
        }
        let interface_class = get_u8(buf);
        let interface_subclass = get_u8(buf);
        let interface_protocol = get_u8(buf);
        let padding = get_u8(buf);
        Ok(UsbInterface { interface_class, interface_subclass, interface_protocol, padding })
    }

    fn wire_size(&self) -> usize {
        USB_INTERFACE_WIRE_SIZE
    }
}

impl WireFormat for UsbDevice {
    type Model = UsbDeviceModel;

    open spec fn model(&self) -> UsbDeviceModel {
        self@
    }

    open spec fn encoding(m: UsbDeviceModel) -> Seq<u8> {
        m.path + m.busid + be32(m.busnum) + be32(m.devnum) + be32(m.speed) + be16(m.id_vendor)
            + be16(m.id_product) + be16(m.bcd_device) + seq![
            m.device_class,
            m.device_subclass,
            m.device_protocol,
            m.configuration_value,
            m.num_configurations,
            m.num_interfaces,
        ]
    }

    open spec fn decoding(b: Seq<u8>) -> (Result<UsbDeviceModel, ProtocolError>, int) {
        if b.len() < 312 {
            (Err(too_short(312, b.len() as int)), 0)
        } else {
            (Ok(device_at(b)), 312)
        }
    }

    open spec fn size(m: UsbDeviceModel) -> nat {
        312
    }

    fn encode(&self, buf: &mut Vec<u8>) {
        put_slice(buf, self.path.as_slice());
        put_slice(buf, self.busid.as_slice());
        put_u32(buf, self.busnum);
        put_u32(buf, self.devnum);
        put_u32(buf, self.speed);
        put_u16(buf, self.id_vendor);
        put_u16(buf, self.id_product);
        put_u16(buf, self.bcd_device);
        put_u8(buf, self.device_class);
        put_u8(buf, self.device_subclass);
        put_u8(buf, self.device_protocol);
        put_u8(buf, self.configuration_value);
        put_u8(buf, self.num_configurations);
        put_u8(buf, self.num_interfaces);
        assert(buf@ =~= old(buf)@ + Self::encoding(self@));
    }

    fn decode(buf: &mut &[u8]) -> (r: Result<Self, ProtocolError>) {
        broadcast use lemma_skip_skip;

        let ghost b = buf@;
        if buf.len() < USB_DEVICE_WIRE_SIZE {
            assert(b.skip(0) =~= b);
            return Err(
                ProtocolError::BufferTooShort {
                    needed: USB_DEVICE_WIRE_SIZE,
                    available: buf.len(),
                },
            );
        }
        let path: [u8; 256] = get_array::<256>(buf);
        let busid: [u8; 32] = get_array::<32>(buf);
        let busnum = get_u32(buf);
        let devnum = get_u32(buf);
        let speed = get_u32(buf);
        let id_vendor = get_u16(buf);
        let id_product = get_u16(buf);
        let bcd_device = get_u16(buf);
        let device_class = get_u8(buf);
        let device_subclass = get_u8(buf);
        let device_protocol = get_u8(buf);
        let configuration_value = get_u8(buf);
        let num_configurations = get_u8(buf);
        let num_interfaces = get_u8(buf);
        let device = UsbDevice {
            path,
            busid,
            busnum,
            devnum,
            speed,
            id_vendor,
            id_product,
            bcd_device,
            device_class,
            device_subclass,
            device_protocol,
            configuration_value,
            num_configurations,
            num_interfaces,
            interfaces: Vec::new(),
        };
        proof {
            assert(path@ =~= b.subrange(0, 256));
            assert(busid@ =~= b.subrange(256, 288));
            assert(device@.interfaces =~= device_at(b).interfaces);
        }
        Ok(device)
    }

    fn wire_size(&self) -> usize {
        USB_DEVICE_WIRE_SIZE
    }
}

impl UsbDevice {
    /// The text of the bus ID, up to the first zero byte; empty where that is
    /// no UTF-8.
    pub fn busid_string(&self) -> (s: &str)
        ensures
            s@ == field_text(self.busid@),
    {
        text_of_field(self.busid.as_slice())
    }

    /// The text of the path, up to the first zero byte; empty where that is no
    /// UTF-8.
    pub fn path_string(&self) -> (s: &str)
        ensures
            s@ == field_text(self.path@),
    {
        text_of_field(self.path.as_slice())
    }

    /// A bus ID field for a text: its bytes, padded with zeros. A text of 32
    /// bytes or more, or one that is not ASCII, has none.
    pub fn busid_from_str(s: &str) -> (r: Result<BusId, ProtocolError>)
        ensures
            match r {
                Ok(b) => busid_rejection(s@) is None && b@ == padded(encode_utf8(s@), 32),
                Err(ProtocolError::InvalidBusId(m)) => busid_rejection(s@) == Some(m@),
                Err(_) => false,
            },
    {
        let bytes = s.as_bytes();
        let n: usize = bytes.len();
        if n >= BUSID_SIZE {
            return Err(
                ProtocolError::InvalidBusId(
                    "bus ID too long: ".to_owned().concat(
                        decimal_string(n as u64).as_str(),
                    ).concat(" bytes (max 31)"),
                ),
            );
        }
        if !s.is_ascii() {
            return Err(ProtocolError::InvalidBusId("bus ID must be ASCII".to_owned()));
        }
        let mut busid: [u8; 32] = [0u8; 32];
        fill_front(&mut busid, bytes, n);
        Ok(busid)
    }

    /// A path field for a text: its first 255 bytes, padded with zeros.
    pub fn path_from_str(s: &str) -> (path: [u8; 256])
        ensures
            path@ == path_field(s@),
    {
        let bytes = s.as_bytes();
        let n: usize = if bytes.len() < DEVICE_PATH_SIZE - 1 {
            bytes.len()
        } else {
            DEVICE_PATH_SIZE - 1
        };
        let mut path: [u8; 256] = [0u8; 256];
        fill_front(&mut path, bytes, n);
        assert(bytes@.take(bytes@.len() as int) =~= bytes@);
        path
    }
}

/// The bytes of a device followed by its interfaces.
pub open spec fn device_with_interfaces_encoding(m: UsbDeviceModel) -> Seq<u8> {
    UsbDevice::encoding(m) + encodings::<UsbInterface>(m.interfaces)
}

/// What is read as a device and the interfaces it announces, and how many
/// bytes are read.
pub open spec fn device_with_interfaces_decoding(b: Seq<u8>) -> (
    Result<UsbDeviceModel, ProtocolError>,
    int,
) {
    if b.len() < 312 {
        (Err(too_short(312, b.len() as int)), 0)
    } else {
        let n = b[311] as int;
        if b.len() - 312 < n * 4 {
            (Err(too_short(n * 4, b.len() - 312)), 312)
        } else {
            (
                Ok(
                    UsbDeviceModel {
                        interfaces: Seq::new(n as nat, |i: int| interface_at(b, 312 + 4 * i)),
                        ..device_at(b)
                    },
                ),
                312 + n * 4,
            )
        }
    }
}

/// Take a device and the interfaces it announces off the front of the buffer.
pub fn decode_device_with_interfaces(buf: &mut &[u8]) -> (r: Result<UsbDevice, ProtocolError>)
    ensures
        match r {
            Ok(v) => device_with_interfaces_decoding(old(buf)@).0 == Ok::<
                UsbDeviceModel,
                ProtocolError,
            >(v@),
            Err(e) => device_with_interfaces_decoding(old(buf)@).0 == Err::<
                UsbDeviceModel,
                ProtocolError,
            >(e),
        },
        final(buf)@ == old(buf)@.skip(device_with_interfaces_decoding(old(buf)@).1),
{
    broadcast use lemma_skip_skip;

    let ghost b = buf@;
    let mut device = match UsbDevice::decode(buf) {
        Ok(d) => d,
        Err(e) => {
            return Err(e);
        },
    };
    let num_ifaces: usize = device.num_interfaces as usize;
    let needed: usize = num_ifaces * USB_INTERFACE_WIRE_SIZE;
    if buf.len() < needed {
        return Err(ProtocolError::BufferTooShort { needed, available: buf.len() });
    }
    let mut interfaces: Vec<UsbInterface> = Vec::new();
    let mut i: usize = 0;
    while i < num_ifaces
        invariant
            i <= num_ifaces <= 255,
            312 + num_ifaces * 4 <= b.len(),
            buf@ == b.skip(312 + 4 * i),
            interfaces@ =~= Seq::new(i as nat, |j: int| interface_at(b, 312 + 4 * j)),
        decreases num_ifaces - i,
    {
        match UsbInterface::decode(buf) {
            Ok(f) => {
                assert(f == interface_at(b, 312 + 4 * i));
                interfaces.push(f);
            },
            Err(e) => {
                return Err(e);
            },
        }
        i = i + 1;
    }
    device.interfaces = interfaces;
    Ok(device)
}

/// Append the bytes of a device and of its interfaces.
pub fn encode_device_with_interfaces(device: &UsbDevice, buf: &mut Vec<u8>)
    ensures
        final(buf)@ == old(buf)@ + device_with_interfaces_encoding(device@),
{
    device.encode(buf);
    let ghost start = buf@;
    let mut i: usize = 0;
    while i < device.interfaces.len()
        invariant
            i <= device.interfaces@.len(),
            buf@ == start + encodings::<UsbInterface>(device.interfaces@.take(i as int)),
        decreases device.interfaces.len() - i,
    {
        device.interfaces[i].encode(buf);
        proof {
            let next = device.interfaces@.take(i + 1);
            assert(next.drop_last() =~= device.interfaces@.take(i as int));
            assert(buf@ =~= start + encodings::<UsbInterface>(next));
        }
        i = i + 1;
    }
    assert(device.interfaces@.take(i as int) =~= device.interfaces@);
    assert(buf@ =~= old(buf)@ + device_with_interfaces_encoding(device@));
}

/// What was written as an interface is read back as it was, whatever follows.
pub proof fn law_interface_round_trip(m: UsbInterface, rest: Seq<u8>)
    ensures
        UsbInterface::encoding(m).len() == UsbInterface::size(m),
        UsbInterface::decoding(UsbInterface::encoding(m) + rest) == (
            Ok::<UsbInterface, ProtocolError>(m),
            4int,
        ),
{
}

/// What was written as a device is read back as it was, without the
/// interfaces, whatever follows; and it takes the size given for it.
pub proof fn law_device_round_trip(m: UsbDeviceModel, rest: Seq<u8>)
    requires
        m.well_sized(),
    ensures
        UsbDevice::encoding(m).len() == UsbDevice::size(m),
        UsbDevice::decoding(UsbDevice::encoding(m) + rest) == (
            Ok::<UsbDeviceModel, ProtocolError>(m.bare()),
            312int,
        ),
{
    let b = UsbDevice::encoding(m) + rest;
    assert(b.subrange(0, 256) =~= m.path);
    assert(b.subrange(256, 288) =~= m.busid);
    assert(b.subrange(288, 292) =~= be32(m.busnum));
    assert(b.subrange(292, 296) =~= be32(m.devnum));
    assert(b.subrange(296, 300) =~= be32(m.speed));
    assert(b.subrange(300, 302) =~= be16(m.id_vendor));
    assert(b.subrange(302, 304) =~= be16(m.id_product));
    assert(b.subrange(304, 306) =~= be16(m.bcd_device));
    lemma_be32_at(b, 288, m.busnum);
    lemma_be32_at(b, 292, m.devnum);
    lemma_be32_at(b, 296, m.speed);
    lemma_be16_at(b, 300, m.id_vendor);
    lemma_be16_at(b, 302, m.id_product);
    lemma_be16_at(b, 304, m.bcd_device);
}

/// What was written as a device with as many interfaces as it announces is
/// read back with them, whatever follows.
pub proof fn law_device_with_interfaces_round_trip(m: UsbDeviceModel, rest: Seq<u8>)
    requires
        m.well_sized(),
        m.num_interfaces == m.interfaces.len(),
    ensures
        device_with_interfaces_encoding(m).len() == 312 + 4 * m.interfaces.len(),
        device_with_interfaces_decoding(device_with_interfaces_encoding(m) + rest) == (
            Ok::<UsbDeviceModel, ProtocolError>(m),
            312 + 4 * (m.interfaces.len() as int),
        ),
{
    let tail = encodings::<UsbInterface>(m.interfaces);
    let b = device_with_interfaces_encoding(m) + rest;
    law_device_round_trip(m, tail + rest);
    assert(b =~= UsbDevice::encoding(m) + (tail + rest));
    lemma_encodings_len::<UsbInterface>(m.interfaces, 4);
    let n = m.interfaces.len() as int;
    let got = Seq::new(n as nat, |i: int| interface_at(b, 312 + 4 * i));
    assert forall|i: int| 0 <= i < n implies got[i] == m.interfaces[i] by {
        lemma_encodings_at::<UsbInterface>(m.interfaces, 4, i);
        let part = tail.subrange(4 * i, 4 * i + 4);
        assert(part[0] == b[312 + 4 * i]);
        assert(part[1] == b[312 + 4 * i + 1]);
        assert(part[2] == b[312 + 4 * i + 2]);
        assert(part[3] == b[312 + 4 * i + 3]);
    }
    assert(got =~= m.interfaces);
    assert(b[311] == m.num_interfaces);
}

/// A bus ID field gives back the text it was made from, where that holds no
/// zero character.
pub proof fn law_busid_round_trip(s: Seq<char>)
    requires
        is_ascii_chars(s),
        s.len() < 32,
        forall|i: int| 0 <= i < s.len() ==> s[i] != 0 as char,
    ensures
        field_text(padded(encode_utf8(s), 32)) == s,
{
    let e = encode_utf8(s);
    is_ascii_chars_encode_utf8(s);
    is_ascii_chars_nat_bound(s);
    let b = padded(e, 32);
    assert forall|i: int| 0 <= i < s.len() implies b[i] != 0 by {
        assert(s[i] as u8 == e[i]);
    }
    lemma_nul_index(b, s.len() as int);
    assert(b.take(s.len() as int) =~= e);
    encode_utf8_valid_utf8(s);
    encode_utf8_decode_utf8(s);
}

/// The first zero byte stands where all before it are not zero and it is.
pub proof fn lemma_nul_index(b: Seq<u8>, n: int)
    requires
        0 <= n < b.len(),
        b[n] == 0,
        forall|i: int| 0 <= i < n ==> b[i] != 0,
    ensures
        nul_index(b) == n,
    decreases n,
{
    if n > 0 {
        assert(b[0] != 0);
        lemma_nul_index(b.skip(1), n - 1);
    }
}

/// The path field for a text: its first 255 bytes, padded with zeros.
pub open spec fn path_field(s: Seq<char>) -> Seq<u8> {
    let b = encode_utf8(s);
    padded(
        if b.len() < 255 {
            b
        } else {
            b.take(255)
        },
        256,
    )
}

/// Why a text is no bus ID, if it is none: it takes 32 bytes or more, or is not
/// ASCII.
pub open spec fn busid_rejection(s: Seq<char>) -> Option<Seq<char>> {
    if encode_utf8(s).len() >= 32 {
        Some("bus ID too long: "@ + decimal(encode_utf8(s).len()) + " bytes (max 31)"@)
    } else if !is_ascii_chars(s) {
        Some("bus ID must be ASCII"@)
    } else {
        None
    }
}

/// Where the first zero byte stands, or the length where there is none.
pub open spec fn nul_index(b: Seq<u8>) -> int
    decreases b.len(),
{
    if b.len() == 0 || b[0] == 0 {
        0
    } else {
        1 + nul_index(b.skip(1))
    }
}

/// The text of a field: what stands before the first zero byte, where that is
/// UTF-8, else nothing.
pub open spec fn field_text(b: Seq<u8>) -> Seq<char> {
    let front = b.take(nul_index(b));
    if valid_utf8(front) {
        decode_utf8(front)
    } else {
        Seq::empty()
    }
}

/// `b`, and zeros up to `n` bytes.
pub open spec fn padded(b: Seq<u8>, n: int) -> Seq<u8> {
    Seq::new(n as nat, |i: int| if i < b.len() { b[i] } else { 0u8 })
}

/// `std::str::from_utf8`: the bytes as text, where they are UTF-8.
#[verifier::external_body]
fn text_from_utf8(b: &[u8]) -> (r: Option<&str>)
    ensures
        r is Some <==> valid_utf8(b@),
        r matches Some(s) ==> s.spec_bytes() == b@,
{
    std::str::from_utf8(b).ok()
}

/// The text of a field: what stands before the first zero, unless it is no text.
pub fn text_of_field(b: &[u8]) -> (s: &str)
    ensures
        s@ == field_text(b@),
{
    let mut end: usize = 0;
    assert(b@.skip(0) =~= b@);
    while end < b.len() && b[end] != 0
        invariant
            end <= b@.len(),
            nul_index(b@) == end + nul_index(b@.skip(end as int)),
        decreases b.len() - end,
    {
        assert(b@.skip(end as int).skip(1) =~= b@.skip(end + 1));
        end = end + 1;
    }
    let front: &[u8] = slice_subrange(b, 0, end);
    assert(front@ =~= b@.take(nul_index(b@)));
    match text_from_utf8(front) {
        Some(s) => {
            proof {
                encode_utf8_decode_utf8(s@);
            }
            s
        },
        None => {
            proof {
                reveal_strlit("");
            }
            assert(""@ =~= Seq::<char>::empty());
            ""
        },
    }
}

/// Copy the first `n` bytes of `src` over the front of an array.
pub fn fill_front<const N: usize>(dst: &mut [u8; N], src: &[u8], n: usize)
    requires
        n <= src@.len(),
        n <= N,
    ensures
        final(dst)@.len() == N,
        forall|i: int|
            0 <= i < N ==> #[trigger] final(dst)@[i] == if i < n {
                src@[i]
            } else {
                old(dst)@[i]
            },
{
    let mut i: usize = 0;
    while i < n
        invariant
            i <= n,
            n <= src@.len(),
            n <= N,
            dst@.len() == N,
            forall|j: int|
                0 <= j < N ==> #[trigger] dst@[j] == if j < i {
                    src@[j]
                } else {
                    old(dst)@[j]
                },
        decreases n - i,
    {
        dst[i] = src[i];
        i = i + 1;
    }
}

/// The fields of a device stand at their places: the path, the bus ID, the
/// numbers of the bus and of the device, the speed, vendor, product and release,
/// and six single bytes.
pub open spec fn device_stands(b: Seq<u8>, d: UsbDevice) -> bool {
    &&& b.len() >= 312
    &&& b.subrange(0, 256) == d.path@
    &&& b.subrange(256, 288) == d.busid@
    &&& be32_at(b, 288) == d.busnum
    &&& be32_at(b, 292) == d.devnum
    &&& be32_at(b, 296) == d.speed
    &&& be16_at(b, 300) == d.id_vendor
    &&& be16_at(b, 302) == d.id_product
    &&& be16_at(b, 304) == d.bcd_device
    &&& b[306] == d.device_class
    &&& b[307] == d.device_subclass
    &&& b[308] == d.device_protocol
    &&& b[309] == d.configuration_value
    &&& b[310] == d.num_configurations
    &&& b[311] == d.num_interfaces
}

/// A device is written with each field at its place.
pub proof fn law_device_layout(d: UsbDevice)
    ensures
        UsbDevice::encoding(d.model()).len() == 312,
        UsbDevice::encoding(d.model()).subrange(0, 256) == d.path@,
        UsbDevice::encoding(d.model()).subrange(256, 288) == d.busid@,
        UsbDevice::encoding(d.model()).subrange(288, 292) == be32(d.busnum),
        UsbDevice::encoding(d.model()).subrange(292, 296) == be32(d.devnum),
        UsbDevice::encoding(d.model()).subrange(296, 300) == be32(d.speed),
        UsbDevice::encoding(d.model()).subrange(300, 302) == be16(d.id_vendor),
        UsbDevice::encoding(d.model()).subrange(302, 304) == be16(d.id_product),
        UsbDevice::encoding(d.model()).subrange(304, 306) == be16(d.bcd_device),
        UsbDevice::encoding(d.model())[306] == d.device_class,
        UsbDevice::encoding(d.model())[307] == d.device_subclass,
        UsbDevice::encoding(d.model())[308] == d.device_protocol,
        UsbDevice::encoding(d.model())[309] == d.configuration_value,
        UsbDevice::encoding(d.model())[310] == d.num_configurations,
        UsbDevice::encoding(d.model())[311] == d.num_interfaces,
        device_stands(UsbDevice::encoding(d.model()), d),
{
    let b = UsbDevice::encoding(d.model());
    assert(b.subrange(0, 256) =~= d.path@);
    assert(b.subrange(256, 288) =~= d.busid@);
    assert(b.subrange(288, 292) =~= be32(d.busnum));
    assert(b.subrange(292, 296) =~= be32(d.devnum));
    assert(b.subrange(296, 300) =~= be32(d.speed));
    assert(b.subrange(300, 302) =~= be16(d.id_vendor));
    assert(b.subrange(302, 304) =~= be16(d.id_product));
    assert(b.subrange(304, 306) =~= be16(d.bcd_device));
    lemma_be32_at(b, 288, d.busnum);
    lemma_be32_at(b, 292, d.devnum);
    lemma_be32_at(b, 296, d.speed);
    lemma_be16_at(b, 300, d.id_vendor);
    lemma_be16_at(b, 302, d.id_product);
    lemma_be16_at(b, 304, d.bcd_device);
}

/// A device that is read has each field from its place, and 312 bytes are
/// always one.
pub proof fn law_device_read(b: Seq<u8>, d: UsbDevice)
    ensures
        UsbDevice::decoding(b).0 is Ok <==> b.len() >= 312,
        UsbDevice::decoding(b).0 == Ok::<UsbDeviceModel, ProtocolError>(d.model()) ==> {
            &&& b.subrange(0, 256) == d.path@
            &&& b.subrange(256, 288) == d.busid@
            &&& be32_at(b, 288) == d.busnum
            &&& be32_at(b, 292) == d.devnum
            &&& be32_at(b, 296) == d.speed
            &&& be16_at(b, 300) == d.id_vendor
            &&& be16_at(b, 302) == d.id_product
            &&& be16_at(b, 304) == d.bcd_device
            &&& b[306] == d.device_class
            &&& b[307] == d.device_subclass
            &&& b[308] == d.device_protocol
            &&& b[309] == d.configuration_value
            &&& b[310] == d.num_configurations
            &&& b[311] == d.num_interfaces
            &&& d.interfaces@.len() == 0
        },
{
}

/// An interface is its class, its subclass, its protocol and a byte more, in
/// this order, written and read.
pub proof fn law_interface_layout(f: UsbInterface, b: Seq<u8>)
    ensures
        UsbInterface::encoding(f.model()).len() == 4,
        UsbInterface::encoding(f.model())[0] == f.interface_class,
        UsbInterface::encoding(f.model())[1] == f.interface_subclass,
        UsbInterface::encoding(f.model())[2] == f.interface_protocol,
        UsbInterface::encoding(f.model())[3] == f.padding,
        UsbInterface::decoding(b).0 == Ok::<UsbInterface, ProtocolError>(f.model()) ==> {
            &&& b[0] == f.interface_class
            &&& b[1] == f.interface_subclass
            &&& b[2] == f.interface_protocol
            &&& b[3] == f.padding
        },
{
}

/// Behind a device stand its interfaces, four bytes each, in order.
pub proof fn law_interfaces_behind_device(d: UsbDevice, i: int)
    requires
        0 <= i < d.interfaces@.len(),
    ensures
        ({
            let b = device_with_interfaces_encoding(d@);
            &&& b.len() == 312 + 4 * d.interfaces@.len()
            &&& device_stands(b, d)
            &&& b[312 + 4 * i] == d.interfaces@[i].interface_class
            &&& b[313 + 4 * i] == d.interfaces@[i].interface_subclass
            &&& b[314 + 4 * i] == d.interfaces@[i].interface_protocol
            &&& b[315 + 4 * i] == d.interfaces@[i].padding
        }),
{
    let fs = d.interfaces@;
    let tail = encodings::<UsbInterface>(fs);
    let head = UsbDevice::encoding(d@);
    let b = device_with_interfaces_encoding(d@);
    assert(b =~= head + tail);
    law_device_layout(d);
    lemma_device_stands_longer(head, tail, d);
    lemma_encodings_len::<UsbInterface>(fs, 4);
    lemma_encodings_at::<UsbInterface>(fs, 4, i);
    let part = tail.subrange(4 * i, 4 * i + 4);
    assert(part == UsbInterface::encoding(fs[i]));
    assert(part[0] == b[312 + 4 * i]);
    assert(part[1] == b[313 + 4 * i]);
    assert(part[2] == b[314 + 4 * i]);
    assert(part[3] == b[315 + 4 * i]);
    law_interface_layout(fs[i], tail);
}

proof fn lemma_device_stands_longer(head: Seq<u8>, tail: Seq<u8>, d: UsbDevice)
    requires
        device_stands(head, d),
    ensures
        device_stands(head + tail, d),
{
    let b = head + tail;
    assert(b.subrange(0, 256) =~= head.subrange(0, 256));
    assert(b.subrange(256, 288) =~= head.subrange(256, 288));
}

/// A device that is read with its interfaces has as many as it announces, each
/// from its place.
pub proof fn law_device_with_interfaces_read(b: Seq<u8>, d: UsbDevice)
    requires
        device_with_interfaces_decoding(b).0 == Ok::<UsbDeviceModel, ProtocolError>(d@),
    ensures
        device_stands(b, d),
        d.interfaces@.len() == b[311],
        b.len() >= 312 + 4 * d.interfaces@.len(),
        device_with_interfaces_decoding(b).1 == 312 + 4 * d.interfaces@.len(),
        forall|i: int|
            #![trigger d.interfaces@[i]]
            0 <= i < d.interfaces@.len() ==> {
                &&& b[312 + 4 * i] == d.interfaces@[i].interface_class
                &&& b[313 + 4 * i] == d.interfaces@[i].interface_subclass
                &&& b[314 + 4 * i] == d.interfaces@[i].interface_protocol
                &&& b[315 + 4 * i] == d.interfaces@[i].padding
            },
{
    let n = b[311] as int;
    let fs = Seq::new(n as nat, |i: int| interface_at(b, 312 + 4 * i));
    assert(d@.interfaces == fs);
    assert forall|i: int| #![trigger d.interfaces@[i]] 0 <= i < d.interfaces@.len() implies {
        &&& b[312 + 4 * i] == d.interfaces@[i].interface_class
        &&& b[313 + 4 * i] == d.interfaces@[i].interface_subclass
        &&& b[314 + 4 * i] == d.interfaces@[i].interface_protocol
        &&& b[315 + 4 * i] == d.interfaces@[i].padding
    } by {
        assert(fs[i] == interface_at(b, 312 + 4 * i));
    }
}

/// A bus ID field holds the bytes of the text, and zeros behind them; the text
/// is refused exactly where it takes 32 bytes or more or is not ASCII.
pub proof fn law_busid_field(s: Seq<char>, i: int)
    requires
        0 <= i < 32,
    ensures
        busid_rejection(s) is None <==> encode_utf8(s).len() < 32 && is_ascii_chars(s),
        padded(encode_utf8(s), 32).len() == 32,
        i < encode_utf8(s).len() ==> padded(encode_utf8(s), 32)[i] == encode_utf8(s)[i],
        i >= encode_utf8(s).len() ==> padded(encode_utf8(s), 32)[i] == 0,
{
}

/// A path field holds the first bytes of the text, ends with a zero, and has
/// zeros behind the text.
pub proof fn law_path_field(s: Seq<char>, i: int)
    requires
        0 <= i < 256,
    ensures
        path_field(s).len() == 256,
        path_field(s)[255] == 0,
        i < 255 && i < encode_utf8(s).len() ==> path_field(s)[i] == encode_utf8(s)[i],
        i >= encode_utf8(s).len() ==> path_field(s)[i] == 0,
{
}

/// A text that is taken for a bus ID comes back from a device that has it, and
/// is taken exactly where it is ASCII and shorter than 32 characters.
pub proof fn law_busid_kept(s: &str, r: Result<BusId, ProtocolError>, d: UsbDevice, t: &str)
    requires
        call_ensures(UsbDevice::busid_from_str, (s,), r),
        r matches Ok(b) ==> d.busid == b,
        call_ensures(UsbDevice::busid_string, (&d,), t),
        forall|i: int| 0 <= i < s@.len() ==> #[trigger] s@[i] != '\0',
    ensures
        r is Ok <==> encode_utf8(s@).len() < 32 && is_ascii_chars(s@),
        r is Ok ==> t@ == s@,
        r matches Err(e) ==> e is InvalidBusId,
{
    if r is Ok {
        is_ascii_chars_encode_utf8(s@);
        law_busid_round_trip(s@);
    }
}

} // verus!
