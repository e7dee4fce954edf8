//! Attaching and detaching remote devices: what is asked of the server, what
//! its answer means, and which devices are attached.

use std::collections::HashMap;

use vstd::prelude::*;
use vstd::std_specs::iter::IteratorSpec;
use vstd::string::*;

use crate::client::error::ClientError;
use crate::client::types::{
    classes_of, interface_classes, AttachedDevice, ImportedDevice, PortStatus, ServerAddr, VhciPort,
};
use crate::client::vhci::{find_free_port_in_list, takes};
use crate::client::vhci_macos::{device_type, device_type_from_usb};
use crate::protocol::device::{busid_rejection, padded, UsbDevice};
use crate::protocol::discovery::{OpMessage, OpReqImport};
use crate::protocol::error::ProtocolError;

verus! {

/// What is remembered of an attached device.
#[derive(Debug, Clone)]
pub struct RegistryEntry {
    pub server_addr: ServerAddr,
    pub busid: String,
    pub id_vendor: u16,
    pub id_product: u16,
    pub speed: u32,
}

/// Which devices are attached, by port.
#[derive(Debug)]
pub struct ClientEngine {
    registry: HashMap<u32, RegistryEntry>,
}

impl View for ClientEngine {
    type V = Map<u32, RegistryEntry>;

    closed spec fn view(&self) -> Map<u32, RegistryEntry> {
        self.registry@
    }
}

/// The number that identifies a device of a server.
pub open spec fn devid_of(d: UsbDevice) -> u32 {
    (d.busnum << 16) | d.devnum
}

/// The request to import a device. A text that is no bus ID is refused before
/// anything is sent.
pub fn import_request(busid: &str) -> (r: Result<OpMessage, ClientError>)
    ensures
        match r {
            Ok(OpMessage::ReqImport(q)) => busid_rejection(busid@) is None && q.busid@ == padded(
                busid.spec_bytes(),
                32,
            ),
            Ok(_) => false,
            Err(ClientError::InvalidBusId(s)) => busid_rejection(busid@) is Some && s@ == busid@,
            Err(_) => false,
        },
{
    match UsbDevice::busid_from_str(busid) {
        Ok(b) => Ok(OpMessage::ReqImport(OpReqImport { busid: b })),
        Err(_) => Err(ClientError::InvalidBusId(busid.to_owned())),
    }
}

/// What a client makes of the answer to an import: the device, unless the
/// status is an error, there is no device, or the message is another.
pub fn import_reply(busid: &str, reply: OpMessage) -> (r: Result<UsbDevice, ClientError>)
    ensures
        match reply {
            OpMessage::RepImport(rep) => if rep.status != 0 {
                r matches Err(ClientError::ImportRejected { busid: b, status }) && b@ == busid@
                    && status == rep.status
            } else {
                match rep.device {
                    Some(d) => r == Ok::<UsbDevice, ClientError>(d),
                    None => r == Err::<UsbDevice, ClientError>(ClientError::ImportMissingDevice),
                }
            },
            _ => r == Err::<UsbDevice, ClientError>(
                ClientError::Protocol(ProtocolError::InvalidOpCode(0)),
            ),
        },
{
    match reply {
        OpMessage::RepImport(rep) => {
            let rep = *rep;
            if rep.status != 0 {
                return Err(
                    ClientError::ImportRejected { busid: busid.to_owned(), status: rep.status },
                );
            }
            match rep.device {
                Some(d) => Ok(d),
                None => Err(ClientError::ImportMissingDevice),
            }
        },
        _ => Err(ClientError::Protocol(ProtocolError::InvalidOpCode(0))),
    }
}

/// How a device is attached to a virtual port.
#[derive(Debug, Clone)]
pub struct AttachPlan {
    pub port: u32,
    pub devid: u32,
    pub speed: u32,
    pub id_vendor: u16,
    pub id_product: u16,
}

/// The plan attaches a device to a port.
pub open spec fn plan_for(d: UsbDevice, port: u32) -> AttachPlan {
    AttachPlan {
        port,
        devid: devid_of(d),
        speed: d.speed,
        id_vendor: d.id_vendor,
        id_product: d.id_product,
    }
}

/// Plan to attach a device to the first free port for its speed.
pub fn plan_attach(device: &UsbDevice, ports: &[VhciPort]) -> (r: Result<AttachPlan, ClientError>)
    ensures
        match r {
            Ok(p) => {
                &&& p == plan_for(*device, p.port)
                &&& exists|i: int|
                    0 <= i < ports@.len() && takes(#[trigger] ports@[i], device.speed)
                        && ports@[i].port == p.port && forall|j: int|
                        0 <= j < i ==> !takes(#[trigger] ports@[j], device.speed)
            },
            Err(ClientError::NoFreePort { speed }) => speed == device.speed && forall|i: int|
                0 <= i < ports@.len() ==> !takes(#[trigger] ports@[i], device.speed),
            Err(_) => false,
        },
{
    match find_free_port_in_list(ports, device.speed) {
        Ok(port) => Ok(
            AttachPlan {
                port,
                devid: (device.busnum << 16) | device.devnum,
                speed: device.speed,
                id_vendor: device.id_vendor,
                id_product: device.id_product,
            },
        ),
        Err(e) => Err(e),
    }
}

/// How a device is attached through the macOS driver, where its number serves
/// as its port.
#[derive(Debug, Clone)]
pub struct MacAttachPlan {
    pub device_type: u32,
    pub attach: AttachPlan,
    /// The device descriptor that the virtual device gets.
    pub descriptor: [u8; 18],
}

/// Plan to attach a device through the macOS driver.
pub fn plan_attach_macos(device: &UsbDevice) -> (p: MacAttachPlan)
    ensures
        p.device_type == device_type(device.device_class, classes_of(*device)),
        p.attach == plan_for(*device, devid_of(*device)),
        p.descriptor@ == descriptor_of(*device),
{
    let classes = interface_classes(device);
    let devid: u32 = (device.busnum << 16) | device.devnum;
    MacAttachPlan {
        device_type: device_type_from_usb(device.device_class, classes.as_slice()),
        attach: AttachPlan {
            port: devid,
            devid,
            speed: device.speed,
            id_vendor: device.id_vendor,
            id_product: device.id_product,
        },
        descriptor: build_device_descriptor(device),
    }
}

/// Where the attachment through the macOS driver stands.
#[derive(Debug, Clone, Copy, PartialEq, Eq, Structural)]
pub enum MacAttachState {
    /// Create the virtual device.
    Create,
    /// Configure it with the descriptor.
    Configure,
    /// Destroy it again.
    Undo,
    /// It is attached: remember it.
    Attached,
    /// It is not attached.
    Failed,
}

/// What comes after a step of the attachment. A virtual device that cannot be
/// configured is destroyed again, whatever that gives.
pub fn next_mac_attach(state: MacAttachState, succeeded: bool) -> (next: MacAttachState)
    ensures
        next == match (state, succeeded) {
            (MacAttachState::Create, true) => MacAttachState::Configure,
            (MacAttachState::Create, false) => MacAttachState::Failed,
            (MacAttachState::Configure, true) => MacAttachState::Attached,
            (MacAttachState::Configure, false) => MacAttachState::Undo,
            (MacAttachState::Undo, _) => MacAttachState::Failed,
            (MacAttachState::Attached, _) => MacAttachState::Attached,
            (MacAttachState::Failed, _) => MacAttachState::Failed,
        },
{
    match state {
        MacAttachState::Create => if succeeded {
            MacAttachState::Configure
        } else {
            MacAttachState::Failed
        },
        MacAttachState::Configure => if succeeded {
            MacAttachState::Attached
        } else {
            MacAttachState::Undo
        },
        MacAttachState::Undo => MacAttachState::Failed,
        MacAttachState::Attached => MacAttachState::Attached,
        MacAttachState::Failed => MacAttachState::Failed,
    }
}

/// The low byte and the high byte of `v`.
pub open spec fn low_high(v: u16) -> Seq<u8> {
    seq![v as u8, (v >> 8) as u8]
}

/// The device descriptor of a device: 18 bytes, USB 3.0 for super speed and
/// USB 2.0 else, packets of 64 bytes, no texts.
pub open spec fn descriptor_of(d: UsbDevice) -> Seq<u8> {
    seq![18u8, 1u8] + low_high(
        if d.speed >= 5 {
            0x0300
        } else {
            0x0200
        },
    ) + seq![d.device_class, d.device_subclass, d.device_protocol, 64u8] + low_high(d.id_vendor)
        + low_high(d.id_product) + low_high(d.bcd_device) + seq![
        0u8,
        0u8,
        0u8,
        d.num_configurations,
    ]
}

/// The device descriptor of a device.
pub fn build_device_descriptor(dev: &UsbDevice) -> (desc: [u8; 18])
    ensures
        desc@ == descriptor_of(*dev),
{
    let bcd_usb: u16 = if dev.speed >= 5 {
        0x0300
    } else {
        0x0200
    };
    let desc: [u8; 18] = [
        18,
        1,
        bcd_usb as u8,
        (bcd_usb >> 8) as u8,
        dev.device_class,
        dev.device_subclass,
        dev.device_protocol,
        64,
        dev.id_vendor as u8,
        (dev.id_vendor >> 8) as u8,
        dev.id_product as u8,
        (dev.id_product >> 8) as u8,
        dev.bcd_device as u8,
        (dev.bcd_device >> 8) as u8,
        0,
        0,
        0,
        dev.num_configurations,
    ];
    assert(desc@ =~= descriptor_of(*dev));
    desc
}

/// Whether the device of a port can be detached: the driver lists the port,
/// and it is not free.
pub fn check_detach(ports: &[VhciPort], port: u32) -> (r: Result<(), ClientError>)
    ensures
        match r {
            Ok(_) => exists|i: int|
                0 <= i < ports@.len() && (#[trigger] ports@[i]).port == port && ports@[i].status
                    != PortStatus::Free && forall|j: int|
                    0 <= j < i ==> (#[trigger] ports@[j]).port != port,
            Err(ClientError::PortNotAttached { port: p }) => {
                &&& p == port
                &&& (forall|i: int| 0 <= i < ports@.len() ==> (#[trigger] ports@[i]).port != port)
                    || exists|i: int|
                    0 <= i < ports@.len() && (#[trigger] ports@[i]).port == port
                        && ports@[i].status == PortStatus::Free && forall|j: int|
                        0 <= j < i ==> (#[trigger] ports@[j]).port != port
            },
            Err(_) => false,
        },
{
    let mut i: usize = 0;
    while i < ports.len()
        invariant
            i <= ports@.len(),
            forall|j: int| 0 <= j < i ==> (#[trigger] ports@[j]).port != port,
        decreases ports.len() - i,
    {
        if ports[i].port == port {
            if ports[i].status.is_free() {
                return Err(ClientError::PortNotAttached { port });
            }
            return Ok(());
        }
        i = i + 1;
    }
    Err(ClientError::PortNotAttached { port })
}

/// The bus ID and the server that are remembered for a port.
pub open spec fn enriched(m: Map<u32, RegistryEntry>, d: ImportedDevice) -> ImportedDevice {
    if m.dom().contains(d.port) {
        ImportedDevice {
            server_addr: Some(m[d.port].server_addr),
            busid: Some(m[d.port].busid),
            ..d
        }
    } else {
        d
    }
}

/// A port in use, as the driver lists it, with what is remembered of it.
pub open spec fn imported_port(m: Map<u32, RegistryEntry>, p: VhciPort) -> ImportedDevice {
    enriched(
        m,
        ImportedDevice {
            port: p.port,
            status: p.status,
            speed: p.speed,
            devid: p.devid,
            server_addr: None,
            busid: None,
        },
    )
}

/// The ports in use among those that the driver lists.
pub open spec fn ports_in_use(ports: Seq<VhciPort>) -> Seq<VhciPort> {
    ports.filter(|p: VhciPort| p.status != PortStatus::Free)
}

/// A device has been attached by a plan: its port, and no other, is remembered
/// anew.
pub open spec fn recorded(
    before: Map<u32, RegistryEntry>,
    after: Map<u32, RegistryEntry>,
    plan: AttachPlan,
    addr: ServerAddr,
    busid: Seq<char>,
) -> bool {
    let entry = after[plan.port];
    &&& after.dom() == before.dom().insert(plan.port)
    &&& forall|p: u32|
        p != plan.port && before.dom().contains(p) ==> #[trigger] after[p] == before[p]
    &&& entry.busid@ == busid
    &&& entry.server_addr == addr
    &&& entry.id_vendor == plan.id_vendor
    &&& entry.id_product == plan.id_product
    &&& entry.speed == plan.speed
}

/// Detaching a device that was just attached to a free port leaves what was
/// attached before.
pub proof fn law_detach_undoes_attach(
    before: Map<u32, RegistryEntry>,
    attached: Map<u32, RegistryEntry>,
    plan: AttachPlan,
    addr: ServerAddr,
    busid: Seq<char>,
)
    requires
        !before.dom().contains(plan.port),
        recorded(before, attached, plan, addr, busid),
    ensures
        attached.dom().contains(plan.port),
        attached.remove(plan.port) == before,
{
    assert(attached.remove(plan.port) =~= before);
}

impl ClientEngine {
    /// Nothing is attached.
    pub fn new() -> (e: Self)
        ensures
            e@ == Map::<u32, RegistryEntry>::empty(),
    {
        ClientEngine { registry: HashMap::new() }
    }

    /// Whether a device is attached to a port.
    pub fn contains(&self, port: u32) -> (b: bool)
        ensures
            b == self@.dom().contains(port),
    {
        broadcast use vstd::std_specs::hash::group_hash_axioms;

        self.registry.contains_key(&port)
    }

    /// Remember a device under a port, in place of what was there.
    pub fn insert(&mut self, port: u32, entry: RegistryEntry)
        ensures
            final(self)@ == old(self)@.insert(port, entry),
    {
        broadcast use vstd::std_specs::hash::group_hash_axioms;

        self.registry.insert(port, entry);
    }

    /// Forget the device of a port.
    pub fn remove(&mut self, port: u32)
        ensures
            final(self)@ == old(self)@.remove(port),
    {
        broadcast use vstd::std_specs::hash::group_hash_axioms;

        self.registry.remove(&port);
        assert(self@ =~= old(self)@.remove(port));
    }

    /// Remember a device that has been attached by a plan.
    pub fn record_attach(&mut self, plan: &AttachPlan, addr: &ServerAddr, busid: &str) -> (r:
        AttachedDevice)
        ensures
            r.busid@ == busid@,
            r.server_addr == *addr,
            r.port == plan.port,
            r.id_vendor == plan.id_vendor,
            r.id_product == plan.id_product,
            r.speed == plan.speed,
            recorded(old(self)@, final(self)@, *plan, *addr, busid@),
    {
        let entry = RegistryEntry {
            server_addr: addr.copy(),
            busid: busid.to_owned(),
            id_vendor: plan.id_vendor,
            id_product: plan.id_product,
            speed: plan.speed,
        };
        self.insert(plan.port, entry);
        AttachedDevice {
            port: plan.port,
            busid: busid.to_owned(),
            server_addr: addr.copy(),
            id_vendor: plan.id_vendor,
            id_product: plan.id_product,
            speed: plan.speed,
        }
    }

    /// Whether a device that is remembered can be detached, by its number.
    pub fn check_detach_macos(&self, port: u32) -> (r: Result<(), ClientError>)
        ensures
            r == if self@.dom().contains(port) {
                Ok::<(), ClientError>(())
            } else {
                Err::<(), ClientError>(ClientError::PortNotAttached { port })
            },
    {
        if self.contains(port) {
            Ok(())
        } else {
            Err(ClientError::PortNotAttached { port })
        }
    }

    fn enrich(&self, d: ImportedDevice) -> (r: ImportedDevice)
        ensures
            r == enriched(self@, d),
    {
        broadcast use vstd::std_specs::hash::group_hash_axioms;

        match self.registry.get(&d.port) {
            Some(e) => {
                ImportedDevice {
                    server_addr: Some(e.server_addr.copy()),
                    busid: Some(e.busid.clone()),
                    port: d.port,
                    status: d.status,
                    speed: d.speed,
                    devid: d.devid,
                }
            },
            None => d,
        }
    }

    /// The ports in use, with what is remembered of them, from the list that
    /// the Linux driver gives.
    pub fn get_imported_devices(&self, ports: &[VhciPort]) -> (r: Vec<ImportedDevice>)
        ensures
            r@ == ports_in_use(ports@).map_values(|p: VhciPort| imported_port(self@, p)),
    {
        let mut out: Vec<ImportedDevice> = Vec::new();
        let mut i: usize = 0;
        let ghost f = |p: VhciPort| imported_port(self@, p);
        let ghost keep = |p: VhciPort| p.status != PortStatus::Free;
        assert(ports@.take(0).filter(keep) =~= Seq::empty()) by {
            reveal(Seq::filter);
        }
        assert(out@ =~= ports@.take(0).filter(keep).map_values(f));
        while i < ports.len()
            invariant
                i <= ports@.len(),
                f == (|p: VhciPort| imported_port(self@, p)),
                keep == (|p: VhciPort| p.status != PortStatus::Free),
                out@ == ports@.take(i as int).filter(keep).map_values(f),
            decreases ports.len() - i,
        {
            let p = &ports[i];
            let ghost before = ports@.take(i as int).filter(keep);
            proof {
                let next = ports@.take(i + 1);
                assert(next.drop_last() =~= ports@.take(i as int));
                assert(next.filter(keep) == if keep(next.last()) {
                    before.push(next.last())
                } else {
                    before
                }) by {
                    reveal(Seq::filter);
                }
            }
            if !p.status.is_free() {
                let d = self.enrich(
                    ImportedDevice {
                        port: p.port,
                        status: p.status,
                        speed: p.speed,
                        devid: p.devid,
                        server_addr: None,
                        busid: None,
                    },
                );
                out.push(d);
                assert(before.push(*p).map_values(f) =~= before.map_values(f).push(f(*p)));
            }
            i = i + 1;
        }
        assert(ports@.take(i as int) =~= ports@);
        out
    }

    /// The devices that the Windows driver lists, with what is remembered of
    /// them.
    pub fn get_imported_devices_windows(&self, devices: Vec<ImportedDevice>) -> (r: Vec<
        ImportedDevice,
    >)
        ensures
            r@ == devices@.map_values(|d: ImportedDevice| enriched(self@, d)),
    {
        let mut out: Vec<ImportedDevice> = Vec::new();
        let mut rest = devices;
        let ghost f = |d: ImportedDevice| enriched(self@, d);
        let n: usize = rest.len();
        let mut i: usize = 0;
        while i < n
            invariant
                i <= n == devices@.len(),
                rest@ =~= devices@.skip(i as int),
                f == (|d: ImportedDevice| enriched(self@, d)),
                out@ =~= devices@.take(i as int).map_values(f),
            decreases n - i,
        {
            let d = rest.remove(0);
            let e = self.enrich(d);
            out.push(e);
            i = i + 1;
        }
        assert(devices@.take(i as int) =~= devices@);
        out
    }

    /// The devices that are attached through the macOS driver: exactly those
    /// that are remembered, in some order.
    pub fn get_imported_devices_macos(&self) -> (r: Vec<ImportedDevice>)
        ensures
            forall|i: int|
                0 <= i < r@.len() ==> self@.dom().contains((#[trigger] r@[i]).port) && r@[i]
                    == mac_imported(r@[i].port, self@[r@[i].port]),
            forall|p: u32|
                self@.dom().contains(p) ==> exists|i: int|
                    0 <= i < r@.len() && (#[trigger] r@[i]).port == p,
            forall|i: int, j: int|
                0 <= i < j < r@.len() ==> #[trigger] r@[i].port != #[trigger] r@[j].port,
    {
        broadcast use vstd::std_specs::hash::group_hash_axioms;

        let mut out: Vec<ImportedDevice> = Vec::new();
        let ghost all = self.registry.keys().remaining().unref();
        assert forall|i: int| 0 <= i < all.len() implies self@.dom().contains(
            #[trigger] all[i],
        ) by {
            assert(all.to_set().contains(all[i]));
        }
        for port in ports: self.registry.keys()
            invariant
                ports.seq().unref() == all,
                ports.seq().no_duplicates(),
                forall|i: int|
                    0 <= i < all.len() ==> self@.dom().contains(#[trigger] all[i]),
                out@.len() == ports.index(),
                forall|i: int|
                    0 <= i < out@.len() ==> (#[trigger] out@[i]) == mac_imported(
                        all[i],
                        self@[all[i]],
                    ),
        {
            match self.registry.get(port) {
                Some(e) => out.push(
                    ImportedDevice {
                        port: *port,
                        status: PortStatus::InUse,
                        speed: e.speed,
                        devid: *port,
                        server_addr: Some(e.server_addr.copy()),
                        busid: Some(e.busid.clone()),
                    },
                ),
                None => {},
            }
        }
        assert forall|p: u32| self@.dom().contains(p) implies exists|i: int|
            0 <= i < out@.len() && (#[trigger] out@[i]).port == p by {
            assert(all.to_set().contains(p));
            let i = all.index_of(p);
            assert(out@[i].port == p);
        }
        out
    }
}

/// A device that is remembered, as attached through the macOS driver.
pub open spec fn mac_imported(port: u32, e: RegistryEntry) -> ImportedDevice {
    ImportedDevice {
        port,
        status: PortStatus::InUse,
        speed: e.speed,
        devid: port,
        server_addr: Some(e.server_addr),
        busid: Some(e.busid),
    }
}

/// The number of a device has the bus in its upper half and the number on the
/// bus in its lower half.
pub proof fn law_device_number(d: UsbDevice)
    requires
        d.busnum < 0x10000,
        d.devnum < 0x10000,
    ensures
        devid_of(d) == d.busnum * 0x10000 + d.devnum,
{
    let (b, n) = (d.busnum, d.devnum);
    assert((b << 16) | n == b * 0x10000 + n) by (bit_vector)
        requires
            b < 0x10000,
            n < 0x10000,
    ;
}

/// What a client asks for to import a device is an import with the bytes of
/// its bus ID, zeros behind.
pub proof fn law_import_asked(busid: &str, r: Result<OpMessage, ClientError>)
    requires
        call_ensures(import_request, (busid,), r),
    ensures
        r matches Ok(m) ==> (m matches OpMessage::ReqImport(q) && q.busid@.len() == 32 && forall|i|
            0 <= i < busid.spec_bytes().len() ==> #[trigger] q.busid@[i] == busid.spec_bytes()[i]),
        r matches Ok(m) ==> (m matches OpMessage::ReqImport(q) && forall|i|
            busid.spec_bytes().len() <= i < 32 ==> #[trigger] q.busid@[i] == 0),
        r matches Err(e) ==> (e matches ClientError::InvalidBusId(s) && s@ == busid@),
{
}

/// The device that was imported is the one in the reply, where its status is
/// zero; else there is none, and a status that is an error is told with the bus
/// ID.
pub proof fn law_import_answered(
    busid: &str,
    reply: OpMessage,
    r: Result<UsbDevice, ClientError>,
)
    requires
        call_ensures(import_reply, (busid, reply), r),
    ensures
        r matches Ok(d) ==> (reply matches OpMessage::RepImport(rep) && rep.status == 0
            && rep.device == Some(d)),
        reply matches OpMessage::RepImport(rep) ==> (rep.status == 0 && rep.device is Some
            ==> r is Ok),
        reply matches OpMessage::RepImport(rep) ==> (rep.status != 0 ==> (r matches Err(
            ClientError::ImportRejected { busid: b, status },
        ) && b@ == busid@ && status == rep.status)),
        reply matches OpMessage::RepImport(rep) ==> (rep.status == 0 && rep.device is None
            ==> r matches Err(ClientError::ImportMissingDevice)),
{
}

/// A device is attached to a free port on the hub for its speed, under its own
/// number, with its own speed, vendor and product.
pub proof fn law_attach_planned(
    device: UsbDevice,
    ports: &[VhciPort],
    r: Result<AttachPlan, ClientError>,
)
    requires
        call_ensures(plan_attach, (&device, ports), r),
        device.busnum < 0x10000,
        device.devnum < 0x10000,
    ensures
        r matches Ok(p) ==> p.devid == device.busnum * 0x10000 + device.devnum && p.speed
            == device.speed && p.id_vendor == device.id_vendor && p.id_product
            == device.id_product,
        r matches Ok(p) ==> exists|i: int|
            #![trigger ports@[i]]
            0 <= i < ports@.len() && ports@[i].port == p.port && ports@[i].status
                == PortStatus::Free && (device.speed >= 5 ==> ports@[i].hub@ == "ss"@) && (
            device.speed < 5 ==> ports@[i].hub@ == "hs"@),
        r is Err ==> forall|i: int|
            0 <= i < ports@.len() && (#[trigger] ports@[i]).status == PortStatus::Free ==> (
            device.speed >= 5 ==> ports@[i].hub@ != "ss"@) && (device.speed < 5 ==> ports@[i].hub@
                != "hs"@),
{
    law_device_number(device);
    if r is Err {
        assert forall|i: int| 0 <= i < ports@.len() && (#[trigger] ports@[i]).status
            == PortStatus::Free implies (device.speed >= 5 ==> ports@[i].hub@ != "ss"@) && (
        device.speed < 5 ==> ports@[i].hub@ != "hs"@) by {
            assert(!takes(ports@[i], device.speed));
        }
    }
}

/// The descriptor of a virtual device has its length and its type in front,
/// then the version of USB by the speed, the class, the subclass and the
/// protocol, the size of packets; the vendor, the product and the release of the
/// device, with their low bytes first; and the number of configurations last.
pub proof fn law_descriptor_bytes(d: UsbDevice, b: [u8; 18])
    requires
        call_ensures(build_device_descriptor, (&d,), b),
    ensures
        b@[0] == 18,
        b@[1] == 1,
        b@[2] == 0,
        d.speed >= 5 ==> b@[3] == 3,
        d.speed < 5 ==> b@[3] == 2,
        b@[4] == d.device_class,
        b@[5] == d.device_subclass,
        b@[6] == d.device_protocol,
        b@[7] == 64,
        b@[8] + 256 * b@[9] == d.id_vendor,
        b@[10] + 256 * b@[11] == d.id_product,
        b@[12] + 256 * b@[13] == d.bcd_device,
        b@[14] == 0,
        b@[15] == 0,
        b@[16] == 0,
        b@[17] == d.num_configurations,
{
    lemma_low_high(d.id_vendor);
    lemma_low_high(d.id_product);
    lemma_low_high(d.bcd_device);
    lemma_low_high(0x0300);
    lemma_low_high(0x0200);
}

proof fn lemma_low_high(v: u16)
    ensures
        low_high(v)[0] + 256 * low_high(v)[1] == v,
{
    assert((v as u8) + 256 * ((v >> 8) as u8) == v) by (bit_vector);
}

/// Through the macOS driver a device has its own number for its port, and the
/// descriptor and the type made for it.
pub proof fn law_mac_attach_planned(
    d: UsbDevice,
    list: Vec<u8>,
    classes: &[u8],
    t: u32,
    b: [u8; 18],
    p: MacAttachPlan,
)
    requires
        call_ensures(plan_attach_macos, (&d,), p),
        call_ensures(interface_classes, (&d,), list),
        classes@ == list@,
        call_ensures(device_type_from_usb, (d.device_class, classes), t),
        call_ensures(build_device_descriptor, (&d,), b),
        d.busnum < 0x10000,
        d.devnum < 0x10000,
    ensures
        p.attach.port == d.busnum * 0x10000 + d.devnum,
        p.attach.devid == d.busnum * 0x10000 + d.devnum,
        p.attach.speed == d.speed,
        p.attach.id_vendor == d.id_vendor,
        p.attach.id_product == d.id_product,
        p.device_type == t,
        p.descriptor@ == b@,
{
    law_device_number(d);
}

/// The attachment through the macOS driver ends attached only where the virtual
/// device was created and then configured; one that was created and could not be
/// configured is destroyed again.
pub proof fn law_mac_attach_steps(
    state: MacAttachState,
    succeeded: bool,
    next: MacAttachState,
)
    requires
        call_ensures(next_mac_attach, (state, succeeded), next),
    ensures
        next == MacAttachState::Configure <==> state == MacAttachState::Create && succeeded,
        next == MacAttachState::Attached <==> state == MacAttachState::Attached || (state
            == MacAttachState::Configure && succeeded),
        next == MacAttachState::Undo <==> state == MacAttachState::Configure && !succeeded,
        next != MacAttachState::Create,
{
}

/// A port can be detached exactly where the driver's list has it in use; the
/// first entry of the port counts.
pub proof fn law_detach_checked(
    ports: &[VhciPort],
    port: u32,
    at: int,
    r: Result<(), ClientError>,
)
    requires
        call_ensures(check_detach, (ports, port), r),
    ensures
        0 <= at < ports@.len() && ports@[at].port == port && (forall|j: int|
            0 <= j < at ==> (#[trigger] ports@[j]).port != port) ==> (r is Ok <==> ports@[at].status
            != PortStatus::Free),
        (forall|j: int| 0 <= j < ports@.len() ==> (#[trigger] ports@[j]).port != port)
            ==> r is Err,
        r matches Err(e) ==> (e matches ClientError::PortNotAttached { port: p } && p == port),
{
}

/// A device that was attached by a plan is remembered under the port of the
/// plan, and told of, with what the plan says of it.
pub proof fn law_attach_recorded(
    e: &mut ClientEngine,
    plan: AttachPlan,
    addr: ServerAddr,
    busid: &str,
    a: AttachedDevice,
)
    requires
        call_ensures(ClientEngine::record_attach, (e, &plan, &addr, busid), a),
    ensures
        a.port == plan.port,
        a.busid@ == busid@,
        a.server_addr == addr,
        a.id_vendor == plan.id_vendor,
        a.id_product == plan.id_product,
        a.speed == plan.speed,
        final(e)@.dom().contains(plan.port),
        final(e)@[plan.port].busid@ == busid@,
        final(e)@[plan.port].server_addr == addr,
        final(e)@[plan.port].id_vendor == plan.id_vendor,
        final(e)@[plan.port].id_product == plan.id_product,
        final(e)@[plan.port].speed == plan.speed,
        forall|p: u32|
            p != plan.port ==> (#[trigger] final(e)@.dom().contains(p) <==> old(
                e)@.dom().contains(p)),
{
}

/// The devices that are listed are the ports in use, in their order, each with
/// its own port, status, speed and number, and with the server and the bus ID
/// that are remembered for the port.
pub proof fn law_devices_listed(e: ClientEngine, ports: &[VhciPort], r: Vec<ImportedDevice>, i: int)
    requires
        call_ensures(ClientEngine::get_imported_devices, (&e, ports), r),
        0 <= i < r@.len(),
    ensures
        r@[i].status != PortStatus::Free,
        exists|k: int|
            #![trigger ports@[k]]
            0 <= k < ports@.len() && r@[i].port == ports@[k].port && r@[i].status
                == ports@[k].status && r@[i].speed == ports@[k].speed && r@[i].devid
                == ports@[k].devid,
        e@.dom().contains(r@[i].port) ==> r@[i].busid == Some(e@[r@[i].port].busid)
            && r@[i].server_addr == Some(e@[r@[i].port].server_addr),
        !e@.dom().contains(r@[i].port) ==> r@[i].busid is None && r@[i].server_addr is None,
{
    let keep = |p: VhciPort| p.status != PortStatus::Free;
    let used = ports_in_use(ports@);
    let p = used[i];
    assert(used == ports@.filter(keep));
    assert(r@[i] == imported_port(e@, p));
    ports@.lemma_filter_pred(keep, i);
    assert(used.contains(p));
    ports@.lemma_filter_contains_rev(keep, p);
    let k = choose|k: int| 0 <= k < ports@.len() && ports@[k] == p;
    assert(ports@[k] == p);
}

/// Every port in use is listed.
pub proof fn law_all_devices_listed(
    e: ClientEngine,
    ports: &[VhciPort],
    r: Vec<ImportedDevice>,
    k: int,
)
    requires
        call_ensures(ClientEngine::get_imported_devices, (&e, ports), r),
        0 <= k < ports@.len(),
        ports@[k].status != PortStatus::Free,
    ensures
        exists|i: int| 0 <= i < r@.len() && (#[trigger] r@[i]).port == ports@[k].port,
{
    let keep = |p: VhciPort| p.status != PortStatus::Free;
    let used = ports_in_use(ports@);
    ports@.lemma_filter_contains(keep, k);
    let i = choose|i: int| 0 <= i < used.len() && used[i] == ports@[k];
    assert(r@[i] == imported_port(e@, used[i]));
}

/// The devices that the Windows driver lists keep their port, status, speed and
/// number, and get the server and the bus ID that are remembered for the port.
pub proof fn law_windows_devices_listed(
    e: ClientEngine,
    devices: Vec<ImportedDevice>,
    r: Vec<ImportedDevice>,
    i: int,
)
    requires
        call_ensures(ClientEngine::get_imported_devices_windows, (&e, devices), r),
        0 <= i < devices@.len(),
    ensures
        r@.len() == devices@.len(),
        r@[i].port == devices@[i].port,
        r@[i].status == devices@[i].status,
        r@[i].speed == devices@[i].speed,
        r@[i].devid == devices@[i].devid,
        e@.dom().contains(r@[i].port) ==> r@[i].busid == Some(e@[r@[i].port].busid)
            && r@[i].server_addr == Some(e@[r@[i].port].server_addr),
        !e@.dom().contains(r@[i].port) ==> r@[i].busid == devices@[i].busid && r@[i].server_addr
            == devices@[i].server_addr,
{
    assert(r@[i] == enriched(e@, devices@[i]));
}

/// A device that is remembered is listed once through the macOS driver, in use,
/// with what is remembered of it; its port is its number.
pub proof fn law_mac_devices_listed(e: ClientEngine, r: Vec<ImportedDevice>, i: int, port: u32)
    requires
        call_ensures(ClientEngine::get_imported_devices_macos, (&e,), r),
        0 <= i < r@.len(),
    ensures
        e@.dom().contains(r@[i].port),
        r@[i].devid == r@[i].port,
        r@[i].status == PortStatus::InUse,
        r@[i].speed == e@[r@[i].port].speed,
        r@[i].busid == Some(e@[r@[i].port].busid),
        r@[i].server_addr == Some(e@[r@[i].port].server_addr),
        e@.dom().contains(port) ==> exists|k: int|
            0 <= k < r@.len() && (#[trigger] r@[k]).port == port,
{
}

/// What is remembered under a port is found there and can be detached, until it
/// is forgotten; other ports are left alone.
pub proof fn law_remembered(
    a: &mut ClientEngine,
    b: &mut ClientEngine,
    port: u32,
    other: u32,
    entry: RegistryEntry,
)
    requires
        call_ensures(ClientEngine::insert, (a, port, entry), ()),
        *old(b) == *final(a),
        call_ensures(ClientEngine::remove, (b, port), ()),
    ensures
        forall|f: bool| #[trigger]
            call_ensures(ClientEngine::contains, (&*final(a), port), f) ==> f,
        forall|f: bool| #[trigger]
            call_ensures(ClientEngine::contains, (&*final(b), port), f) ==> !f,
        forall|r: Result<(), ClientError>| #[trigger]
            call_ensures(ClientEngine::check_detach_macos, (&*final(a), port), r) ==> r is Ok,
        forall|r: Result<(), ClientError>| #[trigger]
            call_ensures(ClientEngine::check_detach_macos, (&*final(b), port), r) ==> r is Err,
        final(a)@[port] == entry,
        other != port ==> (final(b)@.dom().contains(other) <==> old(a)@.dom().contains(other)),
{
}

} // verus!
