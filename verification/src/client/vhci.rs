//! The virtual ports of the Linux driver `vhci_hcd`: the list that it gives,
//! and what is written to it.

use vstd::prelude::*;
use vstd::string::*;

use crate::client::error::ClientError;
use crate::client::types::{status_of, PortStatus, VhciPort};
use crate::scan::{
    at_place, begins_with, law_decimal_read, lemma_decimal_plain, lemma_next_piece, lemma_one_piece,
    numeral, parse_numeral, pieces, split, split_on, trim, trimmed, words, words_of, Numeral,
};
use crate::text::{chars_of, decimal, decimal_string, signed_decimal, signed_decimal_string, string_of};

verus! {

/// The directory of the driver's files.
pub const VHCI_SYSFS_PATH: &'static str = "/sys/devices/platform/vhci_hcd.0";

/// What a virtual port is, by what its fields hold.
pub struct VhciPortModel {
    pub hub: Seq<char>,
    pub port: u32,
    pub status: PortStatus,
    pub speed: u32,
    pub devid: u32,
    pub sockfd: u32,
    pub local_busid: Seq<char>,
}

impl View for VhciPort {
    type V = VhciPortModel;

    open spec fn view(&self) -> VhciPortModel {
        VhciPortModel {
            hub: self.hub@,
            port: self.port,
            status: self.status,
            speed: self.speed,
            devid: self.devid,
            sockfd: self.sockfd,
            local_busid: self.local_busid@,
        }
    }
}

/// What virtual ports are.
pub open spec fn port_models(ps: Seq<VhciPort>) -> Seq<VhciPortModel> {
    Seq::new(ps.len(), |i: int| ps[i]@)
}

/// What a line of the driver's list says.
pub enum Line {
    /// Nothing: it is empty, a heading, or cut short.
    Nothing,
    /// A virtual port.
    Port(VhciPortModel),
    /// A field that is no number.
    Bad(Seq<char>),
}

/// Why a text is no number.
pub open spec fn numeral_fault(n: Numeral) -> Seq<char> {
    match n {
        Numeral::Empty => "cannot parse integer from empty string"@,
        Numeral::TooLarge => "number too large to fit in target type"@,
        _ => "invalid digit found in string"@,
    }
}

/// What is said of a field that is no number.
pub open spec fn field_fault(what: Seq<char>, field: Seq<char>) -> Seq<char> {
    "bad "@ + what + " '"@ + field + "': "@ + numeral_fault(hex_field(field))
}

/// A field as a hexadecimal number of 32 bits.
pub open spec fn hex_field(field: Seq<char>) -> Numeral {
    numeral(field, 16, 0xffff_ffff)
}

/// What a line of the driver's list says.
pub open spec fn line_says(line: Seq<char>) -> Line {
    let t = trimmed(line);
    let f = words_of(t);
    if t.len() == 0 || begins_with(t, "hub"@) || f.len() < 7 {
        Line::Nothing
    } else if !(hex_field(f[1]) is Value) {
        Line::Bad(field_fault("port number"@, f[1]))
    } else if !(hex_field(f[2]) is Value) {
        Line::Bad(field_fault("status"@, f[2]))
    } else if !(hex_field(f[3]) is Value) {
        Line::Bad(field_fault("speed"@, f[3]))
    } else if !(hex_field(f[4]) is Value) {
        Line::Bad(field_fault("devid"@, f[4]))
    } else if !(hex_field(f[5]) is Value) {
        Line::Bad(field_fault("sockfd"@, f[5]))
    } else {
        Line::Port(
            VhciPortModel {
                hub: f[0],
                port: hex_field(f[1])->Value_0 as u32,
                status: status_of(hex_field(f[2])->Value_0 as u32),
                speed: hex_field(f[3])->Value_0 as u32,
                devid: hex_field(f[4])->Value_0 as u32,
                sockfd: hex_field(f[5])->Value_0 as u32,
                local_busid: f[6],
            },
        )
    }
}

/// What the lines of the driver's list say together: the ports in their order,
/// or what is said of the first field that is no number.
pub open spec fn lines_say(lines: Seq<Seq<char>>) -> Result<Seq<VhciPortModel>, Seq<char>>
    decreases lines.len(),
{
    if lines.len() == 0 {
        Ok(Seq::empty())
    } else {
        match lines_say(lines.drop_last()) {
            Err(e) => Err(e),
            Ok(ps) => match line_says(lines.last()) {
                Line::Nothing => Ok(ps),
                Line::Port(p) => Ok(ps.push(p)),
                Line::Bad(e) => Err(e),
            },
        }
    }
}

fn fault_text(n: Numeral) -> (s: String)
    ensures
        s@ == numeral_fault(n),
{
    match n {
        Numeral::Empty => "cannot parse integer from empty string".to_owned(),
        Numeral::TooLarge => "number too large to fit in target type".to_owned(),
        _ => "invalid digit found in string".to_owned(),
    }
}

fn parse_field(what: &str, field: &Vec<char>) -> (r: Result<u32, String>)
    ensures
        match r {
            Ok(v) => hex_field(field@) == Numeral::Value(v as u64),
            Err(e) => !(hex_field(field@) is Value) && e@ == field_fault(what@, field@),
        },
{
    let n = parse_numeral(field, 16, 0xffff_ffff);
    match n {
        Numeral::Value(v) => {
            proof {
                crate::scan::lemma_numeral_bound(field@, 16, 0xffff_ffff);
            }
            Ok(v as u32)
        },
        bad => Err(
            "bad ".to_owned().concat(what).concat(" '").concat(string_of(field).as_str()).concat(
                "': ",
            ).concat(fault_text(bad).as_str()),
        ),
    }
}

fn parse_line(line: &Vec<char>) -> (r: Result<Option<VhciPort>, String>)
    ensures
        match r {
            Ok(None) => line_says(line@) is Nothing,
            Ok(Some(p)) => line_says(line@) == Line::Port(p@),
            Err(e) => line_says(line@) == Line::Bad(e@),
        },
{
    let t = trim(line);
    if t.len() == 0 {
        return Ok(None);
    }
    let heading = chars_of("hub");
    if at_place(&t, 0, &heading) {
        return Ok(None);
    }
    let f = words(&t);
    assert(f@.len() == words_of(t@).len());
    if f.len() < 7 {
        return Ok(None);
    }
    assert forall|i: int| 0 <= i < 7 implies words_of(t@)[i] == #[trigger] f@[i]@ by {
        assert(pieces(f@)[i] == f@[i]@);
    }
    let port = match parse_field("port number", &f[1]) {
        Ok(v) => v,
        Err(e) => {
            return Err(e);
        },
    };
    let status = match parse_field("status", &f[2]) {
        Ok(v) => v,
        Err(e) => {
            return Err(e);
        },
    };
    let speed = match parse_field("speed", &f[3]) {
        Ok(v) => v,
        Err(e) => {
            return Err(e);
        },
    };
    let devid = match parse_field("devid", &f[4]) {
        Ok(v) => v,
        Err(e) => {
            return Err(e);
        },
    };
    let sockfd = match parse_field("sockfd", &f[5]) {
        Ok(v) => v,
        Err(e) => {
            return Err(e);
        },
    };
    Ok(
        Some(
            VhciPort {
                hub: string_of(&f[0]),
                port,
                status: PortStatus::from_raw(status),
                speed,
                devid,
                sockfd,
                local_busid: string_of(&f[6]),
            },
        ),
    )
}

/// What makes some lines no list makes more lines none.
proof fn lemma_lines_final(lines: Seq<Seq<char>>, n: int)
    requires
        0 <= n <= lines.len(),
        lines_say(lines.take(n)) is Err,
    ensures
        lines_say(lines) == lines_say(lines.take(n)),
    decreases lines.len() - n,
{
    if n == lines.len() {
        assert(lines.take(n) =~= lines);
    } else {
        assert(lines.take(n + 1).drop_last() =~= lines.take(n));
        lemma_lines_final(lines, n + 1);
    }
}

/// The virtual ports in the list that the driver gives. Lines that are empty,
/// headings or cut short are passed over.
pub fn parse_vhci_status(content: &str) -> (r: Result<Vec<VhciPort>, ClientError>)
    ensures
        match r {
            Ok(ps) => lines_say(split_on(content@, '\n')) == Ok::<Seq<VhciPortModel>, Seq<char>>(
                port_models(ps@),
            ),
            Err(ClientError::VhciParseError { reason }) => lines_say(split_on(content@, '\n'))
                == Err::<Seq<VhciPortModel>, Seq<char>>(reason@),
            Err(_) => false,
        },
{
    let chars = chars_of(content);
    let lines = split(&chars, '\n');
    let ghost ls = split_on(content@, '\n');
    let mut ports: Vec<VhciPort> = Vec::new();
    let mut i: usize = 0;
    assert(port_models(ports@) =~= Seq::empty());
    while i < lines.len()
        invariant
            i <= lines@.len(),
            ls == split_on(content@, '\n'),
            pieces(lines@) == ls,
            lines_say(ls.take(i as int)) == Ok::<Seq<VhciPortModel>, Seq<char>>(
                port_models(ports@),
            ),
        decreases lines.len() - i,
    {
        proof {
            assert(ls.take(i + 1).drop_last() =~= ls.take(i as int));
            assert(ls.take(i + 1).last() == lines@[i as int]@);
        }
        match parse_line(&lines[i]) {
            Ok(None) => {},
            Ok(Some(p)) => {
                let ghost before = port_models(ports@);
                ports.push(p);
                assert(port_models(ports@) =~= before.push(p@));
            },
            Err(reason) => {
                proof {
                    lemma_lines_final(ls, i + 1);
                }
                return Err(ClientError::VhciParseError { reason });
            },
        }
        i = i + 1;
    }
    assert(ls.take(i as int) =~= ls);
    Ok(ports)
}

/// The hub whose ports take devices of a speed.
pub open spec fn hub_for(speed: u32) -> Seq<char> {
    if speed >= 5 {
        "ss"@
    } else {
        "hs"@
    }
}

/// Whether a device of a speed can be attached to a port.
pub open spec fn takes(p: VhciPort, speed: u32) -> bool {
    p.hub@ == hub_for(speed) && p.status == PortStatus::Free
}

/// The first free port for devices of a speed.
pub fn find_free_port_in_list(ports: &[VhciPort], speed: u32) -> (r: Result<u32, ClientError>)
    ensures
        match r {
            Ok(port) => exists|i: int|
                0 <= i < ports@.len() && takes(#[trigger] ports@[i], speed) && ports@[i].port
                    == port && forall|j: int| 0 <= j < i ==> !takes(#[trigger] ports@[j], speed),
            Err(ClientError::NoFreePort { speed: s }) => s == speed && forall|i: int|
                0 <= i < ports@.len() ==> !takes(#[trigger] ports@[i], speed),
            Err(_) => false,
        },
{
    let target = if speed >= 5 {
        "ss".to_owned()
    } else {
        "hs".to_owned()
    };
    let mut i: usize = 0;
    while i < ports.len()
        invariant
            i <= ports@.len(),
            target@ == hub_for(speed),
            forall|j: int| 0 <= j < i ==> !takes(#[trigger] ports@[j], speed),
        decreases ports.len() - i,
    {
        if ports[i].hub == target && ports[i].status.is_free() {
            assert(takes(ports@[i as int], speed));
            return Ok(ports[i].port);
        }
        i = i + 1;
    }
    Err(ClientError::NoFreePort { speed })
}

/// A path in a directory.
pub open spec fn joined(dir: Seq<char>, name: Seq<char>) -> Seq<char> {
    if dir.len() == 0 || dir.last() == '/' {
        dir + name
    } else {
        dir + "/"@ + name
    }
}

/// A path in a directory.
pub fn join(dir: &str, name: &str) -> (p: String)
    ensures
        p@ == joined(dir@, name@),
{
    let n: usize = dir.unicode_len();
    if n == 0 || dir.get_char(n - 1) == '/' {
        dir.to_owned().concat(name)
    } else {
        dir.to_owned().concat("/").concat(name)
    }
}

/// The driver, by the directory of its files.
#[derive(Debug)]
pub struct VhciDriver {
    sysfs_path: String,
}

impl VhciDriver {
    /// The directory of the driver's files.
    pub closed spec fn path(self) -> Seq<char> {
        self.sysfs_path@
    }

    /// The driver in its usual directory, if that exists.
    pub fn new(exists: bool) -> (r: Result<Self, ClientError>)
        ensures
            match r {
                Ok(d) => exists && d.path() == VHCI_SYSFS_PATH@,
                Err(ClientError::VhciNotAvailable { reason }) => !exists && reason@
                    == "sysfs path "@ + VHCI_SYSFS_PATH@ + " does not exist"@,
                Err(_) => false,
            },
    {
        VhciDriver::with_sysfs_path(VHCI_SYSFS_PATH, exists)
    }

    /// The driver in a directory, if that exists.
    pub fn with_sysfs_path(path: &str, exists: bool) -> (r: Result<Self, ClientError>)
        ensures
            match r {
                Ok(d) => exists && d.path() == path@,
                Err(ClientError::VhciNotAvailable { reason }) => !exists && reason@
                    == "sysfs path "@ + path@ + " does not exist"@,
                Err(_) => false,
            },
    {
        if !exists {
            return Err(
                ClientError::VhciNotAvailable {
                    reason: "sysfs path ".to_owned().concat(path).concat(" does not exist"),
                },
            );
        }
        Ok(VhciDriver { sysfs_path: path.to_owned() })
    }

    /// The file with the list of ports.
    pub fn status_path(&self) -> (p: String)
        ensures
            p@ == joined(self.path(), "status"@),
    {
        join(self.sysfs_path.as_str(), "status")
    }

    /// The file that attaches a device when written to.
    pub fn attach_path(&self) -> (p: String)
        ensures
            p@ == joined(self.path(), "attach"@),
    {
        join(self.sysfs_path.as_str(), "attach")
    }

    /// The file that detaches a device when written to.
    pub fn detach_path(&self) -> (p: String)
        ensures
            p@ == joined(self.path(), "detach"@),
    {
        join(self.sysfs_path.as_str(), "detach")
    }
}

/// What is written to attach a device to a port.
pub fn attach_text(port: u32, fd: i32, devid: u32, speed: u32) -> (s: String)
    ensures
        s@ == decimal(port as nat) + " "@ + signed_decimal(fd as int) + " "@ + decimal(devid as nat)
            + " "@ + decimal(speed as nat),
{
    decimal_string(port as u64).concat(" ").concat(
        signed_decimal_string(fd as i64).as_str(),
    ).concat(" ").concat(decimal_string(devid as u64).as_str()).concat(" ").concat(
        decimal_string(speed as u64).as_str(),
    )
}

/// What is written to detach the device of a port.
pub fn detach_text(port: u32) -> (s: String)
    ensures
        s@ == decimal(port as nat),
{
    decimal_string(port as u64)
}

/// A list of one line gives one port, field by field: the hub, then five
/// hexadecimal numbers (the port, its status, the speed, the number of the
/// device and the socket), then the bus ID.
pub proof fn law_port_of_line(content: &str, line: Seq<char>, ps: Vec<VhciPort>)
    requires
        call_ensures(parse_vhci_status, (content,), Ok(ps)),
        split_on(content@, '\n') == seq![line],
        words_of(trimmed(line)).len() >= 7,
        !begins_with(trimmed(line), "hub"@),
    ensures
        ps@.len() == 1,
        ({
            let f = words_of(trimmed(line));
            let p = ps@[0];
            &&& p.hub@ == f[0]
            &&& numeral(f[1], 16, 0xffff_ffff) == Numeral::Value(p.port as u64)
            &&& numeral(f[2], 16, 0xffff_ffff) matches Numeral::Value(v) && p.status
                == match v as u32 {
                4u32 => PortStatus::Free,
                6u32 => PortStatus::InUse,
                n => PortStatus::Unknown(n),
            }
            &&& numeral(f[3], 16, 0xffff_ffff) == Numeral::Value(p.speed as u64)
            &&& numeral(f[4], 16, 0xffff_ffff) == Numeral::Value(p.devid as u64)
            &&& numeral(f[5], 16, 0xffff_ffff) == Numeral::Value(p.sockfd as u64)
            &&& p.local_busid@ == f[6]
        }),
{
    let lines = seq![line];
    reveal_with_fuel(lines_say, 2);
    assert(lines.drop_last() =~= Seq::empty());
    assert(lines.last() == line);
    let f = words_of(trimmed(line));
    crate::scan::lemma_numeral_bound(f[1], 16, 0xffff_ffff);
    crate::scan::lemma_numeral_bound(f[2], 16, 0xffff_ffff);
    crate::scan::lemma_numeral_bound(f[3], 16, 0xffff_ffff);
    crate::scan::lemma_numeral_bound(f[4], 16, 0xffff_ffff);
    crate::scan::lemma_numeral_bound(f[5], 16, 0xffff_ffff);
    assert(port_models(ps@) =~= seq![line_says(line)->Port_0]);
    assert(port_models(ps@)[0] == ps@[0]@);
    if trimmed(line).len() == 0 {
        assert(words_of(trimmed(line)) =~= Seq::empty());
    }
}

/// A list of more lines gives the ports of the first lines and behind them the
/// ports of the others.
pub proof fn law_ports_of_more_lines(
    first: &str,
    second: &str,
    both: &str,
    ps: Vec<VhciPort>,
    qs: Vec<VhciPort>,
    r: Result<Vec<VhciPort>, ClientError>,
)
    requires
        call_ensures(parse_vhci_status, (first,), Ok(ps)),
        call_ensures(parse_vhci_status, (second,), Ok(qs)),
        call_ensures(parse_vhci_status, (both,), r),
        split_on(both@, '\n') == split_on(first@, '\n') + split_on(second@, '\n'),
    ensures
        r matches Ok(all) && all@.len() == ps@.len() + qs@.len() && (forall|i: int|
            0 <= i < ps@.len() ==> (#[trigger] all@[i])@ == ps@[i]@) && (forall|i: int|
            0 <= i < qs@.len() ==> (#[trigger] all@[ps@.len() + i])@ == qs@[i]@),
{
    lemma_lines_together(split_on(first@, '\n'), split_on(second@, '\n'));
    if let Ok(all) = r {
        let m = port_models(all@);
        assert(m == port_models(ps@) + port_models(qs@));
        assert forall|i: int| 0 <= i < ps@.len() implies (#[trigger] all@[i])@ == ps@[i]@ by {
            assert(m[i] == all@[i]@);
        }
        assert forall|i: int| 0 <= i < qs@.len() implies (#[trigger] all@[ps@.len() + i])@
            == qs@[i]@ by {
            assert(m[ps@.len() + i] == all@[ps@.len() + i]@);
        }
    }
}

proof fn lemma_lines_together(a: Seq<Seq<char>>, b: Seq<Seq<char>>)
    requires
        lines_say(a) is Ok,
        lines_say(b) is Ok,
    ensures
        lines_say(a + b) == Ok::<Seq<VhciPortModel>, Seq<char>>(
            lines_say(a)->Ok_0 + lines_say(b)->Ok_0,
        ),
    decreases b.len(),
{
    if b.len() == 0 {
        assert(a + b =~= a);
        assert(lines_say(a)->Ok_0 + lines_say(b)->Ok_0 =~= lines_say(a)->Ok_0);
    } else {
        assert((a + b).drop_last() =~= a + b.drop_last());
        assert((a + b).last() == b.last());
        lemma_lines_together(a, b.drop_last());
        let front = lines_say(a)->Ok_0 + lines_say(b.drop_last())->Ok_0;
        if let Line::Port(p) = line_says(b.last()) {
            assert(front.push(p) =~= lines_say(a)->Ok_0 + lines_say(b)->Ok_0);
        }
    }
}

/// The port that is found is free, on the hub for the speed, and the first such
/// port in the list; it is found exactly where there is one.
pub proof fn law_free_port(ports: &[VhciPort], speed: u32, r: Result<u32, ClientError>)
    requires
        call_ensures(find_free_port_in_list, (ports, speed), r),
    ensures
        r matches Ok(port) ==> exists|i: int|
            #![trigger ports@[i]]
            0 <= i < ports@.len() && ports@[i].port == port && ports@[i].status == PortStatus::Free
                && (speed >= 5 ==> ports@[i].hub@ == "ss"@) && (speed < 5 ==> ports@[i].hub@
                == "hs"@),
        r is Err ==> forall|i: int|
            0 <= i < ports@.len() && (#[trigger] ports@[i]).status == PortStatus::Free ==> (speed
                >= 5 ==> ports@[i].hub@ != "ss"@) && (speed < 5 ==> ports@[i].hub@ != "hs"@),
        forall|i: int|
            0 <= i < ports@.len() && takes(#[trigger] ports@[i], speed) && (forall|j: int|
                0 <= j < i ==> !takes(#[trigger] ports@[j], speed)) ==> r == Ok::<
                u32,
                ClientError,
            >(ports@[i].port),
{
    assert forall|i: int|
        0 <= i < ports@.len() && takes(#[trigger] ports@[i], speed) && (forall|j: int|
            0 <= j < i ==> !takes(#[trigger] ports@[j], speed)) implies r == Ok::<
        u32,
        ClientError,
    >(ports@[i].port) by {
        if let Ok(port) = r {
            let k = choose|k: int|
                0 <= k < ports@.len() && takes(#[trigger] ports@[k], speed) && ports@[k].port
                    == port && forall|j: int| 0 <= j < k ==> !takes(#[trigger] ports@[j], speed);
            assert(takes(ports@[k], speed));
            assert(k == i);
        }
    }
}

/// What is written to attach a device is four numbers with spaces between them:
/// the port, the socket, the number of the device and the speed.
pub proof fn law_attach_text(port: u32, fd: i32, devid: u32, speed: u32, s: String)
    requires
        call_ensures(attach_text, (port, fd, devid, speed), s),
        fd >= 0,
    ensures
        ({
            let f = split_on(s@, ' ');
            &&& f.len() == 4
            &&& numeral(f[0], 10, 0xffff_ffff) == Numeral::Value(port as u64)
            &&& numeral(f[1], 10, 0xffff_ffff) == Numeral::Value(fd as u64)
            &&& numeral(f[2], 10, 0xffff_ffff) == Numeral::Value(devid as u64)
            &&& numeral(f[3], 10, 0xffff_ffff) == Numeral::Value(speed as u64)
        }),
{
    let (a, b, c, d) = (
        decimal(port as nat),
        decimal(fd as nat),
        decimal(devid as nat),
        decimal(speed as nat),
    );
    law_decimal_read(port as nat, 0xffff_ffff);
    law_decimal_read(fd as nat, 0xffff_ffff);
    law_decimal_read(devid as nat, 0xffff_ffff);
    law_decimal_read(speed as nat, 0xffff_ffff);
    reveal_strlit(" ");
    assert(" "@ =~= seq![' ']);
    lemma_decimal_plain(port as nat);
    lemma_decimal_plain(fd as nat);
    lemma_decimal_plain(devid as nat);
    lemma_decimal_plain(speed as nat);
    lemma_one_piece(a, ' ');
    lemma_next_piece(a, b, ' ');
    lemma_next_piece(a + " "@ + b, c, ' ');
    lemma_next_piece(a + " "@ + b + " "@ + c, d, ' ');
}

/// What is written to detach the device of a port is the number of the port.
pub proof fn law_detach_text(port: u32, s: String)
    requires
        call_ensures(detach_text, (port,), s),
    ensures
        numeral(s@, 10, 0xffff_ffff) == Numeral::Value(port as u64),
{
    law_decimal_read(port as nat, 0xffff_ffff);
}

/// The driver's files are in its directory, each under its own name.
pub proof fn law_driver_files(d: VhciDriver, status: String, attach: String, detach: String)
    requires
        call_ensures(VhciDriver::status_path, (&d,), status),
        call_ensures(VhciDriver::attach_path, (&d,), attach),
        call_ensures(VhciDriver::detach_path, (&d,), detach),
        d.path().len() > 0,
        d.path().last() != '/',
    ensures
        status@ == d.path() + "/status"@,
        attach@ == d.path() + "/attach"@,
        detach@ == d.path() + "/detach"@,
{
    reveal_strlit("/");
    reveal_strlit("status");
    reveal_strlit("attach");
    reveal_strlit("detach");
    reveal_strlit("/status");
    reveal_strlit("/attach");
    reveal_strlit("/detach");
    assert("/"@ + "status"@ =~= "/status"@);
    assert("/"@ + "attach"@ =~= "/attach"@);
    assert("/"@ + "detach"@ =~= "/detach"@);
    assert(status@ =~= d.path() + ("/"@ + "status"@));
    assert(attach@ =~= d.path() + ("/"@ + "attach"@));
    assert(detach@ =~= d.path() + ("/"@ + "detach"@));
}

/// The driver is there exactly where its directory is, and is then the one in
/// that directory.
pub proof fn law_driver_there(path: &str, exists: bool, r: Result<VhciDriver, ClientError>)
    requires
        call_ensures(VhciDriver::with_sysfs_path, (path, exists), r),
    ensures
        r is Ok <==> exists,
        r matches Ok(d) ==> d.path() == path@,
{
}

} // verus!
