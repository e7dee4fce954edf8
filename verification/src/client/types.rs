//! Devices as a client sees them.

use vstd::prelude::*;
use vstd::string::*;

use crate::protocol::device::{field_text, UsbDevice};
use crate::text::{decimal, decimal_string};

verus! {

/// The address of a server.
#[derive(Debug, Clone)]
pub struct ServerAddr {
    /// The IP address, as it is written.
    pub ip: String,
    /// Whether it is an IPv6 address.
    pub ipv6: bool,
    pub port: u16,
}

impl ServerAddr {
    /// The address and the port as they are written together.
    pub open spec fn text(self) -> Seq<char> {
        if self.ipv6 {
            "["@ + self.ip@ + "]:"@ + decimal(self.port as nat)
        } else {
            self.ip@ + ":"@ + decimal(self.port as nat)
        }
    }

    /// The address and the port as they are written together.
    pub fn to_text(&self) -> (s: String)
        ensures
            s@ == self.text(),
    {
        if self.ipv6 {
            "[".to_owned().concat(self.ip.as_str()).concat("]:").concat(
                decimal_string(self.port as u64).as_str(),
            )
        } else {
            self.ip.clone().concat(":").concat(decimal_string(self.port as u64).as_str())
        }
    }

    /// The same address.
    pub fn copy(&self) -> (a: Self)
        ensures
            a == *self,
    {
        ServerAddr { ip: self.ip.clone(), ipv6: self.ipv6, port: self.port }
    }
}

/// A device that a server offers.
#[derive(Debug, Clone)]
pub struct RemoteDevice {
    pub busid: String,
    pub path: String,
    pub id_vendor: u16,
    pub id_product: u16,
    pub bcd_device: u16,
    pub device_class: u8,
    pub device_subclass: u8,
    pub device_protocol: u8,
    /// 1 low, 2 full, 3 high, 5 super.
    pub speed: u32,
    pub num_interfaces: u8,
    /// The class of every interface.
    pub interface_classes: Vec<u8>,
}

/// What a device that a server offers is, by what its fields hold.
pub struct RemoteDeviceModel {
    pub busid: Seq<char>,
    pub path: Seq<char>,
    pub id_vendor: u16,
    pub id_product: u16,
    pub bcd_device: u16,
    pub device_class: u8,
    pub device_subclass: u8,
    pub device_protocol: u8,
    pub speed: u32,
    pub num_interfaces: u8,
    pub interface_classes: Seq<u8>,
}

impl View for RemoteDevice {
    type V = RemoteDeviceModel;

    open spec fn view(&self) -> RemoteDeviceModel {
        RemoteDeviceModel {
            busid: self.busid@,
            path: self.path@,
            id_vendor: self.id_vendor,
            id_product: self.id_product,
            bcd_device: self.bcd_device,
            device_class: self.device_class,
            device_subclass: self.device_subclass,
            device_protocol: self.device_protocol,
            speed: self.speed,
            num_interfaces: self.num_interfaces,
            interface_classes: self.interface_classes@,
        }
    }
}

/// The class of every interface of a device.
pub open spec fn classes_of(d: UsbDevice) -> Seq<u8> {
    Seq::new(d.interfaces@.len(), |i: int| d.interfaces@[i].interface_class)
}

/// A device of a device list, as a client sees it.
pub open spec fn remote_of(d: UsbDevice) -> RemoteDeviceModel {
    RemoteDeviceModel {
        busid: field_text(d.busid@),
        path: field_text(d.path@),
        id_vendor: d.id_vendor,
        id_product: d.id_product,
        bcd_device: d.bcd_device,
        device_class: d.device_class,
        device_subclass: d.device_subclass,
        device_protocol: d.device_protocol,
        speed: d.speed,
        num_interfaces: d.num_interfaces,
        interface_classes: classes_of(d),
    }
}

/// The class of every interface of a device.
pub fn interface_classes(dev: &UsbDevice) -> (v: Vec<u8>)
    ensures
        v@ == classes_of(*dev),
{
    let mut out: Vec<u8> = Vec::new();
    let mut i: usize = 0;
    while i < dev.interfaces.len()
        invariant
            i <= dev.interfaces@.len(),
            out@ =~= Seq::new(i as nat, |j: int| dev.interfaces@[j].interface_class),
        decreases dev.interfaces.len() - i,
    {
        out.push(dev.interfaces[i].interface_class);
        i = i + 1;
    }
    out
}

impl vstd::std_specs::convert::FromSpecImpl<&UsbDevice> for RemoteDevice {
    /// The result is told by its contents alone.
    open spec fn obeys_from_spec() -> bool {
        false
    }

    open spec fn from_spec(dev: &UsbDevice) -> Self {
        arbitrary()
    }
}

impl From<&UsbDevice> for RemoteDevice {
    /// A device of a device list, as a client sees it.
    fn from(dev: &UsbDevice) -> (r: Self)
        ensures
            r@ == remote_of(*dev),
    {
        RemoteDevice {
            busid: dev.busid_string().to_owned(),
            path: dev.path_string().to_owned(),
            id_vendor: dev.id_vendor,
            id_product: dev.id_product,
            bcd_device: dev.bcd_device,
            device_class: dev.device_class,
            device_subclass: dev.device_subclass,
            device_protocol: dev.device_protocol,
            speed: dev.speed,
            num_interfaces: dev.num_interfaces,
            interface_classes: interface_classes(dev),
        }
    }
}

/// A device that has been attached.
#[derive(Debug, Clone)]
pub struct AttachedDevice {
    /// The virtual port.
    pub port: u32,
    pub busid: String,
    pub server_addr: ServerAddr,
    pub id_vendor: u16,
    pub id_product: u16,
    pub speed: u32,
}

/// The state of a virtual port.
#[derive(Debug, Clone, Copy, PartialEq, Eq, Structural)]
pub enum PortStatus {
    Free,
    InUse,
    Unknown(u32),
}

impl PortStatus {
    /// The state that a number of the driver stands for.
    pub fn from_raw(val: u32) -> (s: Self)
        ensures
            s == status_of(val),
    {
        match val {
            4 => PortStatus::Free,
            6 => PortStatus::InUse,
            other => PortStatus::Unknown(other),
        }
    }

    /// Whether a device can be attached to the port.
    pub fn is_free(&self) -> (b: bool)
        ensures
            b == (*self == PortStatus::Free),
    {
        matches!(self, PortStatus::Free)
    }
}

/// The state that a number of the driver stands for.
pub open spec fn status_of(val: u32) -> PortStatus {
    if val == 4 {
        PortStatus::Free
    } else if val == 6 {
        PortStatus::InUse
    } else {
        PortStatus::Unknown(val)
    }
}

/// A virtual port in use.
#[derive(Debug, Clone)]
pub struct ImportedDevice {
    pub port: u32,
    pub status: PortStatus,
    pub speed: u32,
    pub devid: u32,
    /// The server, where it is known.
    pub server_addr: Option<ServerAddr>,
    /// The bus ID at the server, where it is known.
    pub busid: Option<String>,
}

/// A virtual port, as the driver lists it.
#[derive(Debug, Clone)]
pub struct VhciPort {
    /// The hub: `hs` for high speed, `ss` for super speed.
    pub hub: String,
    pub port: u32,
    pub status: PortStatus,
    pub speed: u32,
    /// The device, 0 if the port is free.
    pub devid: u32,
    /// The socket, 0 if the port is free.
    pub sockfd: u32,
    /// The bus ID that the kernel assigned.
    pub local_busid: String,
}

/// An address is written with its port behind a colon, and in brackets where it
/// has colons itself.
pub proof fn law_address_text(a: ServerAddr, s: String)
    requires
        call_ensures(ServerAddr::to_text, (&a,), s),
    ensures
        !a.ipv6 ==> s@ == a.ip@ + seq![':'] + decimal(a.port as nat),
        a.ipv6 ==> s@ == seq!['['] + a.ip@ + seq![']', ':'] + decimal(a.port as nat),
{
    reveal_strlit(":");
    reveal_strlit("[");
    reveal_strlit("]:");
    assert(":"@ =~= seq![':']);
    assert("["@ =~= seq!['[']);
    assert("]:"@ =~= seq![']', ':']);
}

/// The driver says 4 of a port that is free and 6 of one in use; only a free one
/// takes a device.
pub proof fn law_port_states(val: u32, s: PortStatus, free: bool)
    requires
        call_ensures(PortStatus::from_raw, (val,), s),
        call_ensures(PortStatus::is_free, (&s,), free),
    ensures
        free <==> val == 4,
        s == PortStatus::InUse <==> val == 6,
        val != 4 && val != 6 ==> s == PortStatus::Unknown(val),
{
}

/// The classes of the interfaces are those of every interface, in their order.
pub proof fn law_interface_classes(d: UsbDevice, v: Vec<u8>)
    requires
        call_ensures(interface_classes, (&d,), v),
    ensures
        v@.len() == d.interfaces@.len(),
        forall|i: int|
            0 <= i < v@.len() ==> #[trigger] v@[i] == d.interfaces@[i].interface_class,
{
}

} // verus!
