//! Local USB devices: what is known of them, and which of them are wanted.

use vstd::prelude::*;
use vstd::slice::slice_to_vec;
use vstd::string::*;

use crate::protocol::device::{
    busid_rejection, padded, path_field, UsbDevice, UsbDeviceModel, UsbInterface,
};
use crate::protocol::error::ProtocolError;
use crate::scan::{
    law_decimal_read, lemma_decimal_plain, lemma_next_piece, lemma_one_piece, numeral, split_on, Numeral,
};
use crate::server::error::ServerError;
use crate::text::{chars_of, copy_text, decimal, decimal_string, text_option};

verus! {

/// An interface of a local device.
#[derive(Debug, Clone, Copy, PartialEq, Eq, Structural)]
pub struct LocalUsbInterface {
    pub interface_number: u8,
    pub interface_class: u8,
    pub interface_subclass: u8,
    pub interface_protocol: u8,
}

/// A USB device of this host.
#[derive(Debug, Clone)]
pub struct LocalUsbDevice {
    pub bus_number: u8,
    /// The address on the bus.
    pub device_address: u8,
    pub vendor_id: u16,
    pub product_id: u16,
    /// The manufacturer's name, where it can be read.
    pub manufacturer: Option<String>,
    /// The product's name, where it can be read.
    pub product: Option<String>,
    pub device_class: u8,
    pub device_subclass: u8,
    pub device_protocol: u8,
    pub bcd_device: u16,
    /// The bus ID, such as `1-2.3`.
    pub bus_id: String,
    /// 1 low, 2 full, 3 high, 5 super, 6 super plus, 0 unknown.
    pub speed: u32,
    pub num_configurations: u8,
    /// The interfaces of the active configuration.
    pub interfaces: Vec<LocalUsbInterface>,
    /// The ports from the root hub to the device.
    pub port_numbers: Vec<u8>,
}

/// An interface as the protocol describes it.
pub open spec fn protocol_interface(i: LocalUsbInterface) -> UsbInterface {
    UsbInterface {
        interface_class: i.interface_class,
        interface_subclass: i.interface_subclass,
        interface_protocol: i.interface_protocol,
        padding: 0,
    }
}

/// The path that stands for a device.
pub open spec fn device_path(bus_number: u8, bus_id: Seq<char>) -> Seq<char> {
    "/sys/devices/usb"@ + decimal(bus_number as nat) + "/"@ + bus_id
}

/// A device as the protocol describes it.
pub open spec fn protocol_device(d: LocalUsbDevice) -> UsbDeviceModel {
    UsbDeviceModel {
        path: path_field(device_path(d.bus_number, d.bus_id@)),
        busid: padded(vstd::utf8::encode_utf8(d.bus_id@), 32),
        busnum: d.bus_number as u32,
        devnum: d.device_address as u32,
        speed: d.speed,
        id_vendor: d.vendor_id,
        id_product: d.product_id,
        bcd_device: d.bcd_device,
        device_class: d.device_class,
        device_subclass: d.device_subclass,
        device_protocol: d.device_protocol,
        configuration_value: 0,
        num_configurations: d.num_configurations,
        num_interfaces: d.interfaces@.len() as u8,
        interfaces: Seq::new(d.interfaces@.len(), |i: int| protocol_interface(d.interfaces@[i])),
    }
}

/// A conversion succeeds exactly for a proper bus ID, and says why it fails.
pub open spec fn converts_to(d: LocalUsbDevice, r: Result<UsbDevice, ServerError>) -> bool {
    match r {
        Ok(p) => busid_rejection(d.bus_id@) is None && p@ == protocol_device(d),
        Err(ServerError::Protocol(ProtocolError::InvalidBusId(m))) => busid_rejection(d.bus_id@)
            == Some(m@),
        Err(_) => false,
    }
}

impl LocalUsbDevice {
    /// The device as the protocol describes it.
    pub fn to_protocol_device(&self) -> (r: Result<UsbDevice, ServerError>)
        ensures
            converts_to(*self, r),
    {
        let path_str = "/sys/devices/usb".to_owned().concat(
            decimal_string(self.bus_number as u64).as_str(),
        ).concat("/").concat(self.bus_id.as_str());
        let path = UsbDevice::path_from_str(path_str.as_str());
        let busid = match UsbDevice::busid_from_str(self.bus_id.as_str()) {
            Ok(b) => b,
            Err(e) => {
                return Err(ServerError::Protocol(e));
            },
        };
        let mut interfaces: Vec<UsbInterface> = Vec::new();
        let mut i: usize = 0;
        while i < self.interfaces.len()
            invariant
                i <= self.interfaces@.len(),
                interfaces@ =~= Seq::new(
                    i as nat,
                    |j: int| protocol_interface(self.interfaces@[j]),
                ),
            decreases self.interfaces.len() - i,
        {
            let f = &self.interfaces[i];
            interfaces.push(
                UsbInterface {
                    interface_class: f.interface_class,
                    interface_subclass: f.interface_subclass,
                    interface_protocol: f.interface_protocol,
                    padding: 0,
                },
            );
            i = i + 1;
        }
        Ok(
            UsbDevice {
                path,
                busid,
                busnum: self.bus_number as u32,
                devnum: self.device_address as u32,
                speed: self.speed,
                id_vendor: self.vendor_id,
                id_product: self.product_id,
                bcd_device: self.bcd_device,
                device_class: self.device_class,
                device_subclass: self.device_subclass,
                device_protocol: self.device_protocol,
                configuration_value: 0,
                num_configurations: self.num_configurations,
                num_interfaces: interfaces.len() as u8,
                interfaces,
            },
        )
    }
}

/// Port numbers with dots between them.
pub open spec fn dotted(ports: Seq<u8>) -> Seq<char>
    decreases ports.len(),
{
    if ports.len() == 0 {
        Seq::empty()
    } else if ports.len() == 1 {
        decimal(ports[0] as nat)
    } else {
        dotted(ports.drop_last()) + "."@ + decimal(ports.last() as nat)
    }
}

/// The bus ID of a device: the bus number, a hyphen, and the ports with dots
/// between them; for a root hub, which has no ports, a zero in their place.
pub open spec fn bus_id_text(bus_number: u8, ports: Seq<u8>) -> Seq<char> {
    decimal(bus_number as nat) + "-"@ + if ports.len() == 0 {
        "0"@
    } else {
        dotted(ports)
    }
}

/// The bus ID of a device.
pub fn format_bus_id(bus_number: u8, port_numbers: &[u8]) -> (s: String)
    ensures
        s@ == bus_id_text(bus_number, port_numbers@),
{
    let head = decimal_string(bus_number as u64).concat("-");
    if port_numbers.len() == 0 {
        return head.concat("0");
    }
    let mut ports = decimal_string(port_numbers[0] as u64);
    let mut i: usize = 1;
    assert(port_numbers@.take(1) =~= seq![port_numbers@[0]]);
    while i < port_numbers.len()
        invariant
            1 <= i <= port_numbers@.len(),
            ports@ == dotted(port_numbers@.take(i as int)),
        decreases port_numbers.len() - i,
    {
        proof {
            let next = port_numbers@.take(i + 1);
            assert(next.drop_last() =~= port_numbers@.take(i as int));
        }
        ports.append(".");
        ports.append(decimal_string(port_numbers[i] as u64).as_str());
        i = i + 1;
    }
    assert(port_numbers@.take(i as int) =~= port_numbers@);
    head.concat(ports.as_str())
}

/// The speed at which a device is connected.
#[derive(Debug, Clone, Copy, PartialEq, Eq, Structural)]
pub enum BusSpeed {
    Unknown,
    Low,
    Full,
    High,
    Super,
    SuperPlus,
}

/// The number that the protocol uses for a speed.
pub open spec fn speed_number(speed: BusSpeed) -> u32 {
    match speed {
        BusSpeed::Low => 1,
        BusSpeed::Full => 2,
        BusSpeed::High => 3,
        BusSpeed::Super => 5,
        BusSpeed::SuperPlus => 6,
        BusSpeed::Unknown => 0,
    }
}

/// The number that the protocol uses for a speed.
pub fn map_speed(speed: BusSpeed) -> (n: u32)
    ensures
        n == speed_number(speed),
{
    match speed {
        BusSpeed::Low => 1,
        BusSpeed::Full => 2,
        BusSpeed::High => 3,
        BusSpeed::Super => 5,
        BusSpeed::SuperPlus => 6,
        BusSpeed::Unknown => 0,
    }
}

/// Whether a text matches a pattern, in which `*` stands for any characters
/// and `?` for a single one.
pub open spec fn glob(p: Seq<char>, t: Seq<char>) -> bool
    decreases p.len() + t.len(),
{
    if p.len() == 0 {
        t.len() == 0
    } else if p[0] == '*' {
        glob(p.skip(1), t) || (t.len() > 0 && glob(p, t.skip(1)))
    } else {
        t.len() > 0 && (p[0] == '?' || p[0] == t[0]) && glob(p.skip(1), t.skip(1))
    }
}

/// A text matches a star and more wherever a tail of it does.
proof fn lemma_glob_star(p: Seq<char>, t: Seq<char>, k: int)
    requires
        p.len() > 0,
        p[0] == '*',
        0 <= k <= t.len(),
        glob(p, t.skip(k)),
    ensures
        glob(p, t),
    decreases k,
{
    if k == 0 {
        assert(t.skip(0) =~= t);
    } else {
        assert(t.skip(1).skip(k - 1) =~= t.skip(k));
        lemma_glob_star(p, t.skip(1), k - 1);
    }
}

/// Characters that match one by one, without a star among the pattern's.
pub open spec fn aligned(p: Seq<char>, t: Seq<char>, n: int) -> bool {
    &&& 0 <= n <= p.len()
    &&& n <= t.len()
    &&& forall|i: int|
        0 <= i < n ==> #[trigger] p[i] != '*' && (p[i] == '?' || p[i] == t[i])
}

/// Where the first characters match one by one, the rest decides.
proof fn lemma_glob_aligned(p: Seq<char>, t: Seq<char>, n: int)
    requires
        aligned(p, t, n),
    ensures
        glob(p, t) == glob(p.skip(n), t.skip(n)),
    decreases n,
{
    if n == 0 {
        assert(p.skip(0) =~= p);
        assert(t.skip(0) =~= t);
    } else {
        let q = p.skip(1);
        let u = t.skip(1);
        assert forall|i: int| 0 <= i < n - 1 implies #[trigger] q[i] != '*' && (q[i] == '?' || q[i]
            == u[i]) by {
            assert(p[i + 1] != '*');
        }
        lemma_glob_aligned(q, u, n - 1);
        assert(q.skip(n - 1) =~= p.skip(n));
        assert(u.skip(n - 1) =~= t.skip(n));
        assert(p[0] != '*');
    }
}

/// Characters of a pattern without a star, in front of a star, match one by
/// one; what follows them matches the star and the rest.
proof fn lemma_glob_segment(p: Seq<char>, t: Seq<char>, n: int)
    requires
        0 <= n < p.len(),
        p[n] == '*',
        forall|i: int| 0 <= i < n ==> #[trigger] p[i] != '*',
        glob(p, t),
    ensures
        n <= t.len(),
        glob(p.skip(n), t.skip(n)),
    decreases n,
{
    if n == 0 {
        assert(p.skip(0) =~= p);
        assert(t.skip(0) =~= t);
    } else {
        let q = p.skip(1);
        assert(p[0] != '*');
        assert forall|i: int| 0 <= i < n - 1 implies #[trigger] q[i] != '*' by {
            assert(p[i + 1] != '*');
        }
        lemma_glob_segment(q, t.skip(1), n - 1);
        assert(q.skip(n - 1) =~= p.skip(n));
        assert(t.skip(1).skip(n - 1) =~= t.skip(n));
    }
}

/// With two stars, the characters between them may be matched at the first
/// place where they match.
proof fn lemma_glob_commit(p: Seq<char>, t: Seq<char>, n: int)
    requires
        p.len() > n + 1,
        n >= 0,
        p[0] == '*',
        p[n + 1] == '*',
        aligned(p.skip(1), t, n),
    ensures
        glob(p, t) == glob(p.skip(n + 1), t.skip(n)),
{
    let q = p.skip(1);
    assert(q.skip(n) =~= p.skip(n + 1));
    if glob(p.skip(n + 1), t.skip(n)) {
        lemma_glob_aligned(q, t, n);
    }
    if glob(p, t) {
        lemma_glob_star_shift(p, t);
        let k = choose|k: int| 0 <= k <= t.len() && glob(q, #[trigger] t.skip(k));
        let u = t.skip(k);
        assert forall|i: int| 0 <= i < n implies #[trigger] q[i] != '*' by {}
        lemma_glob_segment(q, u, n);
        assert(u.skip(n) =~= t.skip(n).skip(k));
        lemma_glob_star(q.skip(n), t.skip(n), k);
    }
}

/// Where a star and more matches, the rest matches some tail.
proof fn lemma_glob_star_shift(p: Seq<char>, t: Seq<char>)
    requires
        p.len() > 0,
        p[0] == '*',
        glob(p, t),
    ensures
        exists|k: int| 0 <= k <= t.len() && glob(p.skip(1), #[trigger] t.skip(k)),
    decreases t.len(),
{
    if glob(p.skip(1), t) {
        assert(t.skip(0) =~= t);
    } else {
        lemma_glob_star_shift(p, t.skip(1));
        let k = choose|k: int|
            0 <= k <= t.len() - 1 && glob(p.skip(1), #[trigger] t.skip(1).skip(k));
        assert(t.skip(1).skip(k) =~= t.skip(k + 1));
    }
}

/// A pattern of stars alone matches nothing; any other does not.
proof fn lemma_glob_empty_text(p: Seq<char>)
    ensures
        glob(p, Seq::empty()) == (forall|i: int| 0 <= i < p.len() ==> #[trigger] p[i] == '*'),
    decreases p.len(),
{
    if p.len() > 0 {
        let q = p.skip(1);
        lemma_glob_empty_text(q);
        if p[0] == '*' {
            if glob(q, Seq::empty()) {
                assert forall|i: int| 0 <= i < p.len() implies #[trigger] p[i] == '*' by {
                    if i > 0 {
                        assert(q[i - 1] == '*');
                    }
                }
            } else {
                let i = choose|i: int| 0 <= i < q.len() && #[trigger] q[i] != '*';
                assert(p[i + 1] != '*');
            }
        }
    }
}

fn glob_match_inner(pattern: &Vec<char>, text: &Vec<char>) -> (r: bool)
    ensures
        r == glob(pattern@, text@),
{
    let ghost p = pattern@;
    let ghost t = text@;
    let mut pi: usize = 0;
    let mut ti: usize = 0;
    let mut star: Option<usize> = None;
    let mut star_ti: usize = 0;
    assert(p.skip(0) =~= p);
    assert(t.skip(0) =~= t);
    while ti < text.len()
        invariant
            p == pattern@,
            t == text@,
            pi <= p.len(),
            ti <= t.len(),
            match star {
                None => star_ti == 0 && pi == ti && aligned(p, t, pi as int),
                Some(s) => {
                    &&& s < pi
                    &&& p[s as int] == '*'
                    &&& star_ti <= ti
                    &&& pi - s - 1 == ti - star_ti
                    &&& aligned(p.skip(s + 1), t.skip(star_ti as int), ti - star_ti)
                    &&& glob(p, t) == glob(p.skip(s as int), t.skip(star_ti as int))
                },
            },
        decreases
                t.len() - star_ti + p.len() - (if star is Some {
                    star->Some_0 + 1
                } else {
                    0
                }),
                t.len() - ti,
    {
        let ghost q = match star {
            None => p,
            Some(s) => p.skip(s + 1),
        };
        let ghost u = match star {
            None => t,
            Some(_) => t.skip(star_ti as int),
        };
        let ghost n = match star {
            None => ti as int,
            Some(_) => ti - star_ti,
        };
        assert(aligned(q, u, n));
        assert(pi < p.len() ==> q[n] == p[pi as int]);
        assert(u[n] == t[ti as int]);
        if pi < pattern.len() && pattern[pi] == '*' {
            proof {
                match star {
                    None => {
                        lemma_glob_aligned(p, t, n);
                    },
                    Some(s) => {
                        let ps = p.skip(s as int);
                        assert(ps.skip(1) =~= q);
                        assert(ps[n + 1] == p[pi as int]);
                        lemma_glob_commit(ps, u, n);
                        assert(ps.skip(n + 1) =~= p.skip(pi as int));
                        assert(u.skip(n) =~= t.skip(ti as int));
                    },
                }
            }
            star = Some(pi);
            star_ti = ti;
            pi = pi + 1;
        } else if pi < pattern.len() && (pattern[pi] == '?' || pattern[pi] == text[ti]) {
            pi = pi + 1;
            ti = ti + 1;
        } else {
            proof {
                lemma_glob_aligned(q, u, n);
                let qn = q.skip(n);
                let un = u.skip(n);
                assert(un.len() > 0);
                if pi < p.len() {
                    assert(qn[0] == p[pi as int]);
                    assert(un[0] == t[ti as int]);
                }
                assert(!glob(qn, un));
            }
            match star {
                Some(s) => {
                    proof {
                        let ps = p.skip(s as int);
                        assert(ps.skip(1) =~= q);
                        assert(u.skip(1) =~= t.skip(star_ti + 1));
                    }
                    pi = s + 1;
                    star_ti = star_ti + 1;
                    ti = star_ti;
                },
                None => {
                    return false;
                },
            }
        }
    }
    let ghost q = p.skip(pi as int);
    proof {
        let n = match star {
            None => ti as int,
            Some(_) => ti - star_ti,
        };
        match star {
            None => {
                lemma_glob_aligned(p, t, n);
            },
            Some(s) => {
                let ps = p.skip(s as int);
                let u = t.skip(star_ti as int);
                assert(ps.skip(1) =~= p.skip(s + 1));
                lemma_glob_aligned(p.skip(s + 1), u, n);
                assert(p.skip(s + 1).skip(n) =~= q);
                assert(u.skip(n) =~= Seq::empty());
                lemma_glob_empty_text(q);
                if glob(ps, u) && !glob(ps.skip(1), u) {
                    lemma_glob_short(ps, u, n);
                }
            },
        }
        assert(t.skip(ti as int) =~= Seq::empty());
        lemma_glob_empty_text(q);
    }
    let ghost start = pi;
    while pi < pattern.len() && pattern[pi] == '*'
        invariant
            p == pattern@,
            start <= pi <= p.len(),
            q == p.skip(start as int),
            forall|i: int| start <= i < pi ==> #[trigger] p[i] == '*',
        decreases pattern.len() - pi,
    {
        pi = pi + 1;
    }
    proof {
        if pi < p.len() {
            assert(q[pi - start] == p[pi as int]);
        } else {
            assert forall|i: int| 0 <= i < q.len() implies #[trigger] q[i] == '*' by {
                assert(q[i] == p[i + start]);
            }
        }
    }
    pi == pattern.len()
}

/// A pattern does not match fewer characters than it has that are no star.
proof fn lemma_glob_short(p: Seq<char>, t: Seq<char>, n: int)
    requires
        p.len() > 0,
        p[0] == '*',
        n == t.len(),
        aligned(p.skip(1), t, n),
        glob(p, t),
    ensures
        glob(p.skip(1), t),
{
    let q = p.skip(1);
    lemma_glob_star_shift(p, t);
    let k = choose|k: int| 0 <= k <= t.len() && glob(q, #[trigger] t.skip(k));
    if k == 0 {
        assert(t.skip(0) =~= t);
    } else {
        lemma_glob_needs(q, t.skip(k), n);
        assert(false);
    }
}

/// A pattern that begins with `n` characters other than stars matches only a
/// text of `n` characters or more.
proof fn lemma_glob_needs(p: Seq<char>, t: Seq<char>, n: int)
    requires
        0 <= n <= p.len(),
        forall|i: int| 0 <= i < n ==> #[trigger] p[i] != '*',
        glob(p, t),
    ensures
        t.len() >= n,
    decreases n,
{
    if n > 0 {
        assert(p[0] != '*');
        let q = p.skip(1);
        assert forall|i: int| 0 <= i < n - 1 implies #[trigger] q[i] != '*' by {
            assert(p[i + 1] != '*');
        }
        lemma_glob_needs(q, t.skip(1), n - 1);
    }
}

/// Whether a text matches a pattern, in which `*` stands for any characters
/// and `?` for a single one.
pub fn glob_match(pattern: &str, text: &str) -> (r: bool)
    ensures
        r == glob(pattern@, text@),
{
    let pat = chars_of(pattern);
    let txt = chars_of(text);
    glob_match_inner(&pat, &txt)
}

/// Which devices are wanted. What is not given does not restrict.
#[derive(Debug, Clone)]
pub struct DeviceFilter {
    /// A class, of the device or of one of its interfaces.
    pub device_class: Option<u8>,
    /// A vendor ID and a product ID.
    pub vid_pid: Option<(u16, u16)>,
    /// A pattern for the bus ID, such as `1-4.*`.
    pub bus_id_pattern: Option<String>,
}

impl Default for DeviceFilter {
    /// No restriction.
    fn default() -> (f: Self)
        ensures
            f.device_class is None,
            f.vid_pid is None,
            f.bus_id_pattern is None,
    {
        DeviceFilter { device_class: None, vid_pid: None, bus_id_pattern: None }
    }
}

/// Whether a device has a class, by itself or by one of its interfaces.
pub open spec fn has_class(d: LocalUsbDevice, class: u8) -> bool {
    d.device_class == class || exists|i: int|
        0 <= i < d.interfaces@.len() && (#[trigger] d.interfaces@[i]).interface_class == class
}

impl DeviceFilter {
    /// Whether a device meets everything that is given.
    pub open spec fn accepts(self, d: LocalUsbDevice) -> bool {
        &&& (self.device_class matches Some(class) ==> has_class(d, class))
        &&& (self.vid_pid matches Some(ids) ==> d.vendor_id == ids.0 && d.product_id == ids.1)
        &&& (self.bus_id_pattern matches Some(p) ==> glob(p@, d.bus_id@))
    }

    fn check(&self, d: &LocalUsbDevice) -> (r: bool)
        ensures
            r == self.accepts(*d),
    {
        if let Some(class) = self.device_class {
            let mut found: bool = d.device_class == class;
            let mut i: usize = 0;
            while i < d.interfaces.len()
                invariant
                    i <= d.interfaces@.len(),
                    found == (d.device_class == class || exists|j: int|
                        0 <= j < i && (#[trigger] d.interfaces@[j]).interface_class == class),
                decreases d.interfaces.len() - i,
            {
                if d.interfaces[i].interface_class == class {
                    found = true;
                }
                i = i + 1;
            }
            if !found {
                return false;
            }
        }
        if let Some((vid, pid)) = self.vid_pid {
            if d.vendor_id != vid || d.product_id != pid {
                return false;
            }
        }
        if let Some(pattern) = &self.bus_id_pattern {
            if !glob_match(pattern.as_str(), d.bus_id.as_str()) {
                return false;
            }
        }
        true
    }
}

/// The devices that meet everything that is given, in their order.
pub fn filter_devices<'a>(devices: &'a [LocalUsbDevice], filter: &DeviceFilter) -> (r: Vec<
    &'a LocalUsbDevice,
>)
    ensures
        r@.map_values(|d: &LocalUsbDevice| *d) == devices@.filter(
            |d: LocalUsbDevice| filter.accepts(d),
        ),
{
    let mut out: Vec<&'a LocalUsbDevice> = Vec::new();
    let ghost wanted = |d: LocalUsbDevice| filter.accepts(d);
    let ghost plain = |d: &LocalUsbDevice| *d;
    let mut i: usize = 0;
    assert(devices@.take(0).filter(wanted) =~= Seq::empty()) by {
        reveal(Seq::filter);
    }
    assert(out@.map_values(plain) =~= Seq::empty());
    while i < devices.len()
        invariant
            i <= devices@.len(),
            wanted == (|d: LocalUsbDevice| filter.accepts(d)),
            plain == (|d: &LocalUsbDevice| *d),
            out@.map_values(plain) == devices@.take(i as int).filter(wanted),
        decreases devices.len() - i,
    {
        let d = &devices[i];
        let ghost before = out@;
        let keep = filter.check(d);
        if keep {
            out.push(d);
        }
        proof {
            let next = devices@.take(i + 1);
            assert(next.drop_last() =~= devices@.take(i as int));
            assert(next.filter(wanted) == if wanted(next.last()) {
                devices@.take(i as int).filter(wanted).push(next.last())
            } else {
                devices@.take(i as int).filter(wanted)
            }) by {
                reveal(Seq::filter);
            }
            if keep {
                assert(out@.map_values(plain) =~= before.map_values(plain).push(*d));
            }
        }
        i = i + 1;
    }
    assert(devices@.take(i as int) =~= devices@);
    out
}

/// What a local device is, by what its fields hold.
pub struct LocalDeviceModel {
    pub bus_number: u8,
    pub device_address: u8,
    pub vendor_id: u16,
    pub product_id: u16,
    pub manufacturer: Option<Seq<char>>,
    pub product: Option<Seq<char>>,
    pub device_class: u8,
    pub device_subclass: u8,
    pub device_protocol: u8,
    pub bcd_device: u16,
    pub bus_id: Seq<char>,
    pub speed: u32,
    pub num_configurations: u8,
    pub interfaces: Seq<LocalUsbInterface>,
    pub port_numbers: Seq<u8>,
}

impl View for LocalUsbDevice {
    type V = LocalDeviceModel;

    open spec fn view(&self) -> LocalDeviceModel {
        LocalDeviceModel {
            bus_number: self.bus_number,
            device_address: self.device_address,
            vendor_id: self.vendor_id,
            product_id: self.product_id,
            manufacturer: text_option(self.manufacturer),
            product: text_option(self.product),
            device_class: self.device_class,
            device_subclass: self.device_subclass,
            device_protocol: self.device_protocol,
            bcd_device: self.bcd_device,
            bus_id: self.bus_id@,
            speed: self.speed,
            num_configurations: self.num_configurations,
            interfaces: self.interfaces@,
            port_numbers: self.port_numbers@,
        }
    }
}

/// What the device descriptor of a probed device holds.
#[derive(Debug, Clone, Copy)]
pub struct ProbedDescriptor {
    pub vendor_id: u16,
    pub product_id: u16,
    pub class_code: u8,
    pub sub_class_code: u8,
    pub protocol_code: u8,
    /// The release number: major, minor and sub-minor.
    pub version_major: u8,
    pub version_minor: u8,
    pub version_sub_minor: u8,
    pub num_configurations: u8,
}

/// What probing a device gave. What could not be read is absent.
#[derive(Debug, Clone)]
pub struct ProbedDevice {
    pub bus_number: u8,
    pub address: u8,
    pub descriptor: Option<ProbedDescriptor>,
    pub port_numbers: Option<Vec<u8>>,
    pub speed: BusSpeed,
    pub manufacturer: Option<String>,
    pub product: Option<String>,
    /// The active configuration: for each interface, its alternate settings.
    pub active_config: Option<Vec<Vec<LocalUsbInterface>>>,
    /// The configuration with index 0, in the same form.
    pub first_config: Option<Vec<Vec<LocalUsbInterface>>>,
}

/// The first alternate setting of every interface that has one.
pub open spec fn first_settings(config: Seq<Vec<LocalUsbInterface>>) -> Seq<LocalUsbInterface>
    decreases config.len(),
{
    if config.len() == 0 {
        Seq::empty()
    } else if config.last()@.len() == 0 {
        first_settings(config.drop_last())
    } else {
        first_settings(config.drop_last()).push(config.last()@[0])
    }
}

/// The interfaces of a probed device: those of the active configuration, else
/// those of the first one, else none.
pub open spec fn probed_interfaces(p: ProbedDevice) -> Seq<LocalUsbInterface> {
    match (p.active_config, p.first_config) {
        (Some(c), _) => first_settings(c@),
        (None, Some(c)) => first_settings(c@),
        (None, None) => Seq::empty(),
    }
}

/// A release number in binary coded decimal.
pub open spec fn bcd(major: u8, minor: u8, sub_minor: u8) -> u16 {
    ((major as u16) << 8) | ((minor as u16) << 4) | (sub_minor as u16)
}

/// The local device that a probed device with a descriptor is.
pub open spec fn probed_device(p: ProbedDevice) -> LocalDeviceModel {
    let d = p.descriptor->Some_0;
    let ports = match p.port_numbers {
        Some(v) => v@,
        None => Seq::empty(),
    };
    LocalDeviceModel {
        bus_number: p.bus_number,
        device_address: p.address,
        vendor_id: d.vendor_id,
        product_id: d.product_id,
        manufacturer: text_option(p.manufacturer),
        product: text_option(p.product),
        device_class: d.class_code,
        device_subclass: d.sub_class_code,
        device_protocol: d.protocol_code,
        bcd_device: bcd(d.version_major, d.version_minor, d.version_sub_minor),
        bus_id: bus_id_text(p.bus_number, ports),
        speed: speed_number(p.speed),
        num_configurations: d.num_configurations,
        interfaces: probed_interfaces(p),
        port_numbers: ports,
    }
}

/// The local devices among probed ones: those whose descriptor could be read.
pub open spec fn probed_devices(ps: Seq<ProbedDevice>) -> Seq<LocalDeviceModel>
    decreases ps.len(),
{
    if ps.len() == 0 {
        Seq::empty()
    } else if ps.last().descriptor is None {
        probed_devices(ps.drop_last())
    } else {
        probed_devices(ps.drop_last()).push(probed_device(ps.last()))
    }
}

/// What the devices of a list are.
pub open spec fn local_models(ds: Seq<LocalUsbDevice>) -> Seq<LocalDeviceModel> {
    Seq::new(ds.len(), |i: int| ds[i]@)
}

fn take_first_settings(config: &Vec<Vec<LocalUsbInterface>>) -> (r: Vec<LocalUsbInterface>)
    ensures
        r@ == first_settings(config@),
{
    let mut out: Vec<LocalUsbInterface> = Vec::new();
    let mut i: usize = 0;
    while i < config.len()
        invariant
            i <= config@.len(),
            out@ == first_settings(config@.take(i as int)),
        decreases config.len() - i,
    {
        proof {
            assert(config@.take(i + 1).drop_last() =~= config@.take(i as int));
        }
        if config[i].len() > 0 {
            out.push(config[i][0]);
        }
        i = i + 1;
    }
    assert(config@.take(i as int) =~= config@);
    out
}

/// The local devices among probed ones, in their order. A device whose
/// descriptor could not be read is left out.
pub fn enumerate_devices(probed: &Vec<ProbedDevice>) -> (r: Vec<LocalUsbDevice>)
    ensures
        local_models(r@) == probed_devices(probed@),
{
    let mut out: Vec<LocalUsbDevice> = Vec::new();
    let mut i: usize = 0;
    assert(local_models(out@) =~= Seq::empty());
    while i < probed.len()
        invariant
            i <= probed@.len(),
            local_models(out@) == probed_devices(probed@.take(i as int)),
        decreases probed.len() - i,
    {
        let p = &probed[i];
        proof {
            assert(probed@.take(i + 1).drop_last() =~= probed@.take(i as int));
        }
        if let Some(d) = &p.descriptor {
            let ports: Vec<u8> = match &p.port_numbers {
                Some(v) => slice_to_vec(v.as_slice()),
                None => Vec::new(),
            };
            let interfaces: Vec<LocalUsbInterface> = match &p.active_config {
                Some(c) => take_first_settings(c),
                None => match &p.first_config {
                    Some(c) => take_first_settings(c),
                    None => Vec::new(),
                },
            };
            let device = LocalUsbDevice {
                bus_number: p.bus_number,
                device_address: p.address,
                vendor_id: d.vendor_id,
                product_id: d.product_id,
                manufacturer: copy_text(&p.manufacturer),
                product: copy_text(&p.product),
                device_class: d.class_code,
                device_subclass: d.sub_class_code,
                device_protocol: d.protocol_code,
                bcd_device: ((d.version_major as u16) << 8) | ((d.version_minor as u16) << 4) | (
                d.version_sub_minor as u16),
                bus_id: format_bus_id(p.bus_number, ports.as_slice()),
                speed: map_speed(p.speed),
                num_configurations: d.num_configurations,
                interfaces,
                port_numbers: ports,
            };
            let ghost before = local_models(out@);
            assert(device@.interfaces =~= probed_interfaces(*p));
            assert(device@.port_numbers =~= probed_device(*p).port_numbers);
            assert(device@ == probed_device(*p));
            out.push(device);
            assert(local_models(out@) =~= before.push(probed_device(*p)));
        }
        i = i + 1;
    }
    assert(probed@.take(i as int) =~= probed@);
    out
}

proof fn lemma_dotted(ports: Seq<u8>)
    requires
        ports.len() > 0,
    ensures
        split_on(dotted(ports), '.').len() == ports.len(),
        forall|i: int|
            0 <= i < ports.len() ==> (#[trigger] split_on(dotted(ports), '.')[i]) == decimal(
                ports[i] as nat,
            ),
        forall|i: int|
            0 <= i < dotted(ports).len() ==> #[trigger] dotted(ports)[i] == '.' || '0' <= dotted(
                ports,
            )[i] <= '9',
    decreases ports.len(),
{
    reveal_strlit(".");
    assert("."@ =~= seq!['.']);
    lemma_decimal_plain(ports.last() as nat);
    if ports.len() == 1 {
        lemma_one_piece(decimal(ports[0] as nat), '.');
    } else {
        lemma_dotted(ports.drop_last());
        lemma_next_piece(dotted(ports.drop_last()), decimal(ports.last() as nat), '.');
        assert forall|i: int| 0 <= i < ports.len() implies (#[trigger] split_on(
            dotted(ports),
            '.',
        )[i]) == decimal(ports[i] as nat) by {
            if i < ports.len() - 1 {
                assert(split_on(dotted(ports.drop_last()), '.')[i] == decimal(ports[i] as nat));
            }
        }
        let front = dotted(ports.drop_last());
        assert forall|i: int| 0 <= i < dotted(ports).len() implies #[trigger] dotted(ports)[i]
            == '.' || '0' <= dotted(ports)[i] <= '9' by {
            if i < front.len() {
                assert(dotted(ports)[i] == front[i]);
            }
        }
    }
}

/// A bus ID is two parts with a hyphen between them: the number of the bus, and
/// the numbers of the ports, in their order, with dots between them. Where there
/// are no ports, a zero is in their place.
pub proof fn law_bus_ids(bus_number: u8, port_numbers: &[u8], s: String)
    requires
        call_ensures(format_bus_id, (bus_number, port_numbers), s),
    ensures
        ({
            let parts = split_on(s@, '-');
            &&& parts.len() == 2
            &&& numeral(parts[0], 10, 255) == Numeral::Value(bus_number as u64)
            &&& port_numbers@.len() == 0 ==> parts[1] == seq!['0']
            &&& port_numbers@.len() > 0 ==> {
                let ports = split_on(parts[1], '.');
                &&& ports.len() == port_numbers@.len()
                &&& forall|i: int|
                    0 <= i < port_numbers@.len() ==> numeral(#[trigger] ports[i], 10, 255)
                        == Numeral::Value(port_numbers@[i] as u64)
            }
        }),
{
    let ports = port_numbers@;
    let bus = decimal(bus_number as nat);
    reveal_strlit("-");
    reveal_strlit("0");
    assert("-"@ =~= seq!['-']);
    assert("0"@ =~= seq!['0']);
    lemma_decimal_plain(bus_number as nat);
    law_decimal_read(bus_number as nat, 255);
    lemma_one_piece(bus, '-');
    let tail = if ports.len() == 0 {
        "0"@
    } else {
        dotted(ports)
    };
    if ports.len() > 0 {
        lemma_dotted(ports);
        assert forall|i: int| 0 <= i < ports.len() implies numeral(
            #[trigger] split_on(tail, '.')[i],
            10,
            255,
        ) == Numeral::Value(ports[i] as u64) by {
            law_decimal_read(ports[i] as nat, 255);
        }
    }
    assert forall|i: int| 0 <= i < tail.len() implies #[trigger] tail[i] != '-' by {}
    lemma_next_piece(bus, tail, '-');
    assert(s@ == bus + seq!['-'] + tail);
}

/// Every speed has its own number: low 1, full 2, high 3, super 5, super plus 6,
/// and 0 where it is not known.
pub proof fn law_speeds(speed: BusSpeed, n: u32)
    requires
        call_ensures(map_speed, (speed,), n),
    ensures
        n == 0 <==> speed == BusSpeed::Unknown,
        n == 1 <==> speed == BusSpeed::Low,
        n == 2 <==> speed == BusSpeed::Full,
        n == 3 <==> speed == BusSpeed::High,
        n == 5 <==> speed == BusSpeed::Super,
        n == 6 <==> speed == BusSpeed::SuperPlus,
{
}

/// A pattern without stars matches exactly the texts of its length that agree
/// with it everywhere but at its question marks.
pub proof fn law_glob_plain(pattern: &str, text: &str, r: bool)
    requires
        call_ensures(glob_match, (pattern, text), r),
        forall|i: int| 0 <= i < pattern@.len() ==> #[trigger] pattern@[i] != '*',
    ensures
        r <==> pattern@.len() == text@.len() && forall|i: int|
            0 <= i < pattern@.len() ==> #[trigger] pattern@[i] == '?' || pattern@[i] == text@[i],
{
    lemma_glob_plain(pattern@, text@);
}

proof fn lemma_glob_plain(p: Seq<char>, t: Seq<char>)
    requires
        forall|i: int| 0 <= i < p.len() ==> #[trigger] p[i] != '*',
    ensures
        glob(p, t) <==> p.len() == t.len() && forall|i: int|
            0 <= i < p.len() ==> #[trigger] p[i] == '?' || p[i] == t[i],
    decreases p.len(),
{
    if p.len() > 0 {
        assert(p[0] != '*');
        let (q, u) = (p.skip(1), t.skip(1));
        assert forall|i: int| 0 <= i < q.len() implies #[trigger] q[i] != '*' by {
            assert(p[i + 1] != '*');
        }
        lemma_glob_plain(q, u);
        if glob(p, t) {
            assert forall|i: int| 0 <= i < p.len() implies #[trigger] p[i] == '?' || p[i]
                == t[i] by {
                if i > 0 {
                    assert(q[i - 1] == p[i]);
                }
            }
        }
        if p.len() == t.len() && (forall|i: int|
            0 <= i < p.len() ==> #[trigger] p[i] == '?' || p[i] == t[i]) {
            assert(p[0] == '?' || p[0] == t[0]);
            assert forall|i: int| 0 <= i < q.len() implies #[trigger] q[i] == '?' || q[i]
                == u[i] by {
                assert(p[i + 1] == '?' || p[i + 1] == t[i + 1]);
            }
        }
    }
}

/// A star and a further pattern match a text exactly where the further pattern
/// matches the text from some place on.
pub proof fn law_glob_star(pattern: &str, text: &str, rest: Seq<char>, r: bool)
    requires
        call_ensures(glob_match, (pattern, text), r),
        pattern@ == seq!['*'] + rest,
    ensures
        r <==> exists|k: int| 0 <= k <= text@.len() && glob(rest, #[trigger] text@.skip(k)),
        rest.len() == 0 ==> r,
{
    let (p, t) = (pattern@, text@);
    assert(p.skip(1) =~= rest);
    if glob(p, t) {
        lemma_glob_star_shift(p, t);
    }
    if exists|k: int| 0 <= k <= t.len() && glob(rest, #[trigger] t.skip(k)) {
        let k = choose|k: int| 0 <= k <= t.len() && glob(rest, #[trigger] t.skip(k));
        lemma_glob_star(p, t, k);
    }
    if rest.len() == 0 {
        assert(glob(rest, t.skip(t.len() as int)));
    }
}

/// A device is kept exactly where it has the class that is given, or one of its
/// interfaces has it, where it has the vendor and the product that are given,
/// and where its bus ID matches the pattern that is given.
pub proof fn law_devices_kept<'a>(
    devices: &'a [LocalUsbDevice],
    filter: DeviceFilter,
    r: Vec<&'a LocalUsbDevice>,
    d: LocalUsbDevice,
)
    requires
        call_ensures(filter_devices, (devices, &filter), r),
        devices@.contains(d),
    ensures
        r@.map_values(|k: &LocalUsbDevice| *k).contains(d) <==> {
            &&& filter.device_class matches Some(c) ==> d.device_class == c || exists|i: int|
                0 <= i < d.interfaces@.len() && (#[trigger] d.interfaces@[i]).interface_class == c
            &&& filter.vid_pid matches Some(ids) ==> d.vendor_id == ids.0 && d.product_id == ids.1
            &&& filter.bus_id_pattern matches Some(p) ==> glob(p@, d.bus_id@)
        },
{
    let wanted = |k: LocalUsbDevice| filter.accepts(k);
    let kept = devices@.filter(wanted);
    let at = choose|i: int| 0 <= i < devices@.len() && devices@[i] == d;
    if filter.accepts(d) {
        devices@.lemma_filter_contains(wanted, at);
    }
    if kept.contains(d) {
        let i = choose|i: int| 0 <= i < kept.len() && kept[i] == d;
        devices@.lemma_filter_pred(wanted, i);
    }
}

/// A probed device whose descriptor could be read is taken as what was read of
/// it, field by field; its release number has the major part in the upper byte
/// and the others in the halves of the lower one.
pub proof fn law_probed_as_it_is(
    probed: Vec<ProbedDevice>,
    p: ProbedDevice,
    r: Vec<LocalUsbDevice>,
)
    requires
        call_ensures(enumerate_devices, (&probed,), r),
        probed@ == seq![p],
    ensures
        p.descriptor is None ==> r@.len() == 0,
        p.descriptor matches Some(d) ==> r@.len() == 1 && {
            let l = r@[0];
            &&& l.bus_number == p.bus_number
            &&& l.device_address == p.address
            &&& l.vendor_id == d.vendor_id
            &&& l.product_id == d.product_id
            &&& l.device_class == d.class_code
            &&& l.device_subclass == d.sub_class_code
            &&& l.device_protocol == d.protocol_code
            &&& d.version_minor < 16 && d.version_sub_minor < 16 ==> l.bcd_device == 256
                * d.version_major + 16 * d.version_minor + d.version_sub_minor
            &&& l.num_configurations == d.num_configurations
            &&& p.manufacturer is None ==> l.manufacturer is None
            &&& p.manufacturer matches Some(m) ==> (l.manufacturer matches Some(n) && n@ == m@)
            &&& p.product is None ==> l.product is None
            &&& p.product matches Some(m) ==> (l.product matches Some(n) && n@ == m@)
            &&& p.port_numbers matches Some(v) ==> l.port_numbers@ == v@
            &&& p.port_numbers is None ==> l.port_numbers@.len() == 0
            &&& forall|n: u32| #[trigger] call_ensures(map_speed, (p.speed,), n) ==> l.speed == n
        },
        forall|ports: &[u8], s: String|
            p.descriptor is Some && ports@ == r@[0].port_numbers@ && #[trigger] call_ensures(
                format_bus_id,
                (p.bus_number, ports),
                s,
            ) ==> r@[0].bus_id@ == s@,
{
    let ps = seq![p];
    assert(ps.drop_last() =~= Seq::empty());
    assert(ps.last() == p);
    reveal_with_fuel(probed_devices, 2);
    if let Some(d) = p.descriptor {
        assert(local_models(r@) =~= seq![probed_device(p)]);
        assert(local_models(r@)[0] == r@[0]@);
        let (a, b, c) = (d.version_major, d.version_minor, d.version_sub_minor);
        assert(b < 16 && c < 16 ==> ((a as u16) << 8) | ((b as u16) << 4) | (c as u16) == 256 * a
            + 16 * b + c) by (bit_vector);
    } else {
        assert(local_models(r@) =~= Seq::empty());
        assert(local_models(r@).len() == r@.len());
    }
}

/// The interfaces of a probed device are the first settings of those of the
/// active configuration where it could be read, else of the first configuration.
pub proof fn law_probed_interfaces(
    probed: Vec<ProbedDevice>,
    p: ProbedDevice,
    config: Vec<Vec<LocalUsbInterface>>,
    r: Vec<LocalUsbDevice>,
)
    requires
        call_ensures(enumerate_devices, (&probed,), r),
        probed@ == seq![p],
        p.descriptor is Some,
        p.active_config == Some(config) || (p.active_config is None && p.first_config == Some(
            config,
        )),
        forall|i: int| 0 <= i < config@.len() ==> (#[trigger] config@[i])@.len() > 0,
    ensures
        r@.len() == 1,
        r@[0].interfaces@.len() == config@.len(),
        forall|i: int|
            0 <= i < config@.len() ==> #[trigger] r@[0].interfaces@[i] == config@[i]@[0],
{
    let ps = seq![p];
    assert(ps.drop_last() =~= Seq::empty());
    assert(ps.last() == p);
    reveal_with_fuel(probed_devices, 2);
    assert(local_models(r@) =~= seq![probed_device(p)]);
    assert(local_models(r@)[0] == r@[0]@);
    lemma_first_settings(config@);
}

proof fn lemma_first_settings(config: Seq<Vec<LocalUsbInterface>>)
    requires
        forall|i: int| 0 <= i < config.len() ==> (#[trigger] config[i])@.len() > 0,
    ensures
        first_settings(config).len() == config.len(),
        forall|i: int|
            0 <= i < config.len() ==> #[trigger] first_settings(config)[i] == config[i]@[0],
    decreases config.len(),
{
    if config.len() > 0 {
        lemma_first_settings(config.drop_last());
        assert(config.last() == config[config.len() - 1]);
    }
}

/// The devices of two lists of probed devices, one behind the other, are those
/// of the first and behind them those of the second.
pub proof fn law_probed_together(
    first: Vec<ProbedDevice>,
    second: Vec<ProbedDevice>,
    both: Vec<ProbedDevice>,
    ds: Vec<LocalUsbDevice>,
    es: Vec<LocalUsbDevice>,
    all: Vec<LocalUsbDevice>,
)
    requires
        call_ensures(enumerate_devices, (&first,), ds),
        call_ensures(enumerate_devices, (&second,), es),
        call_ensures(enumerate_devices, (&both,), all),
        both@ == first@ + second@,
    ensures
        all@.len() == ds@.len() + es@.len(),
        forall|i: int| 0 <= i < ds@.len() ==> (#[trigger] all@[i])@ == ds@[i]@,
        forall|i: int| 0 <= i < es@.len() ==> (#[trigger] all@[ds@.len() + i])@ == es@[i]@,
{
    lemma_probed_together(first@, second@);
    let m = local_models(all@);
    assert(m == local_models(ds@) + local_models(es@));
    assert forall|i: int| 0 <= i < ds@.len() implies (#[trigger] all@[i])@ == ds@[i]@ by {
        assert(m[i] == all@[i]@);
    }
    assert forall|i: int| 0 <= i < es@.len() implies (#[trigger] all@[ds@.len() + i])@
        == es@[i]@ by {
        assert(m[ds@.len() + i] == all@[ds@.len() + i]@);
    }
}

proof fn lemma_probed_together(a: Seq<ProbedDevice>, b: Seq<ProbedDevice>)
    ensures
        probed_devices(a + b) == probed_devices(a) + probed_devices(b),
    decreases b.len(),
{
    if b.len() == 0 {
        assert(a + b =~= a);
        assert(probed_devices(a) + probed_devices(b) =~= probed_devices(a));
    } else {
        lemma_probed_together(a, b.drop_last());
        assert((a + b).drop_last() =~= a + b.drop_last());
        assert((a + b).last() == b.last());
        assert(probed_devices(a + b) =~= probed_devices(a) + probed_devices(b));
    }
}

/// A device is described to clients as what it is, field by field: its numbers,
/// its speed, vendor, product and release, its class, and its interfaces in
/// order; and no configuration is said to be active.
pub proof fn law_described_as_it_is(d: LocalUsbDevice, p: UsbDevice)
    requires
        call_ensures(LocalUsbDevice::to_protocol_device, (&d,), Ok(p)),
    ensures
        p.busnum == d.bus_number,
        p.devnum == d.device_address,
        p.speed == d.speed,
        p.id_vendor == d.vendor_id,
        p.id_product == d.product_id,
        p.bcd_device == d.bcd_device,
        p.device_class == d.device_class,
        p.device_subclass == d.device_subclass,
        p.device_protocol == d.device_protocol,
        p.configuration_value == 0,
        p.num_configurations == d.num_configurations,
        d.interfaces@.len() <= 255 ==> p.num_interfaces == d.interfaces@.len(),
        p.interfaces@.len() == d.interfaces@.len(),
        forall|i: int|
            #![trigger p.interfaces@[i]]
            0 <= i < d.interfaces@.len() ==> {
                &&& p.interfaces@[i].interface_class == d.interfaces@[i].interface_class
                &&& p.interfaces@[i].interface_subclass == d.interfaces@[i].interface_subclass
                &&& p.interfaces@[i].interface_protocol == d.interfaces@[i].interface_protocol
                &&& p.interfaces@[i].padding == 0
            },
{
    let fs = Seq::new(d.interfaces@.len(), |i: int| protocol_interface(d.interfaces@[i]));
    assert(p@.interfaces == fs);
    assert forall|i: int| #![trigger p.interfaces@[i]] 0 <= i < d.interfaces@.len() implies {
        &&& p.interfaces@[i].interface_class == d.interfaces@[i].interface_class
        &&& p.interfaces@[i].interface_subclass == d.interfaces@[i].interface_subclass
        &&& p.interfaces@[i].interface_protocol == d.interfaces@[i].interface_protocol
        &&& p.interfaces@[i].padding == 0
    } by {
        assert(p.interfaces@[i] == fs[i]);
    }
}

/// A client takes the number of a device that is described to it as that of its
/// bus, times 65536, and that of its address.
pub proof fn law_described_number(d: LocalUsbDevice, p: UsbDevice)
    requires
        call_ensures(LocalUsbDevice::to_protocol_device, (&d,), Ok(p)),
    ensures
        crate::client::engine::devid_of(p) == d.bus_number * 65536 + d.device_address,
{
    law_described_as_it_is(d, p);
    crate::client::engine::law_device_number(p);
}

/// A device is described under its bus ID, padded with zeros, and under a path
/// that names its bus and its bus ID; it is refused exactly where that is no bus
/// ID.
pub proof fn law_described_bus_id(d: LocalUsbDevice, r: Result<UsbDevice, ServerError>, i: int)
    requires
        call_ensures(LocalUsbDevice::to_protocol_device, (&d,), r),
        0 <= i < 32,
    ensures
        r is Ok <==> vstd::utf8::encode_utf8(d.bus_id@).len() < 32 && vstd::utf8::is_ascii_chars(
            d.bus_id@,
        ),
        r matches Ok(p) ==> {
            let text = vstd::utf8::encode_utf8(d.bus_id@);
            &&& i < text.len() ==> p.busid@[i] == text[i]
            &&& i >= text.len() ==> p.busid@[i] == 0
            &&& p.path@ == path_field(
                "/sys/devices/usb"@ + decimal(d.bus_number as nat) + "/"@ + d.bus_id@,
            )
        },
{
    crate::protocol::device::law_busid_field(d.bus_id@, i);
}

} // verus!
