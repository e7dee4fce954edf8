//! Servers found on the local network.

use vstd::prelude::*;
use vstd::string::*;

use crate::client::types::ServerAddr;
use crate::scan::{
    at_place, begins_with, find, first_place, law_decimal_read, numeral, occurs_in, parse_numeral, part, pieces,
    same, split, split_on, stands_at, trim, trimmed, words, words_of, Numeral,
};
use crate::text::{chars_of, decimal, string_of, text_option};

verus! {

/// The type of service that servers offer.
pub const SERVICE_TYPE: &'static str = "_usbip._tcp";

/// The port of a server that names none.
pub const DEFAULT_PORT: u16 = 3240;

/// A server that was found.
#[derive(Debug, Clone)]
pub struct DiscoveredServer {
    /// The name under which it offers its service.
    pub hostname: String,
    pub addr: ServerAddr,
    pub version: String,
    /// How many devices it offers.
    pub device_count: u32,
}

/// A server's record, as far as it has been read.
#[derive(Debug, Clone)]
pub struct ServiceRecord {
    pub name: String,
    pub host: String,
    pub port: u16,
    pub version: String,
    pub devices: u32,
}

/// What a server's record is, by what its fields hold.
pub struct RecordModel {
    pub name: Seq<char>,
    pub host: Seq<char>,
    pub port: u16,
    pub version: Seq<char>,
    pub devices: u32,
}

impl View for ServiceRecord {
    type V = RecordModel;

    open spec fn view(&self) -> RecordModel {
        RecordModel {
            name: self.name@,
            host: self.host@,
            port: self.port,
            version: self.version@,
            devices: self.devices,
        }
    }
}

/// A record of which nothing has been read.
pub open spec fn blank_record() -> RecordModel {
    RecordModel {
        name: Seq::empty(),
        host: Seq::empty(),
        port: 0,
        version: Seq::empty(),
        devices: 0,
    }
}

fn blank() -> (r: ServiceRecord)
    ensures
        r@ == blank_record(),
{
    ServiceRecord {
        name: String::new(),
        host: String::new(),
        port: 0,
        version: String::new(),
        devices: 0,
    }
}

/// A text with every occurrence of another, from left to right, replaced.
pub open spec fn replaced(s: Seq<char>, what: Seq<char>, with: Seq<char>) -> Seq<char>
    decreases s.len(),
{
    if s.len() == 0 || what.len() == 0 {
        s
    } else if begins_with(s, what) {
        with + replaced(s.skip(what.len() as int), what, with)
    } else {
        seq![s[0]] + replaced(s.skip(1), what, with)
    }
}

fn replace(s: &Vec<char>, what: &Vec<char>, with: &Vec<char>) -> (r: Vec<char>)
    requires
        what@.len() > 0,
    ensures
        r@ == replaced(s@, what@, with@),
{
    let mut out: Vec<char> = Vec::new();
    let mut i: usize = 0;
    assert(s@.skip(0) =~= s@);
    while i < s.len()
        invariant
            i <= s@.len(),
            what@.len() > 0,
            out@ + replaced(s@.skip(i as int), what@, with@) == replaced(s@, what@, with@),
        decreases s@.len() - i,
    {
        let ghost rest = s@.skip(i as int);
        proof {
            assert(stands_at(s@, i as int, what@) == begins_with(rest, what@)) by {
                if i + what@.len() <= s@.len() {
                    assert(s@.subrange(i as int, i + what@.len()) =~= rest.subrange(
                        0,
                        what@.len() as int,
                    ));
                }
            }
        }
        if at_place(s, i, what) {
            let ghost before = out@;
            let mut k: usize = 0;
            while k < with.len()
                invariant
                    k <= with@.len(),
                    out@ == before + with@.take(k as int),
                decreases with@.len() - k,
            {
                out.push(with[k]);
                assert(with@.take(k + 1) =~= with@.take(k as int).push(with@[k as int]));
                k = k + 1;
            }
            assert(with@.take(k as int) =~= with@);
            assert(rest.skip(what@.len() as int) =~= s@.skip(i + what@.len()));
            assert(before + (with@ + replaced(rest.skip(what@.len() as int), what@, with@))
                =~= out@ + replaced(rest.skip(what@.len() as int), what@, with@));
            i = i + what.len();
        } else {
            assert(rest[0] == s@[i as int]);
            assert(rest.skip(1) =~= s@.skip(i + 1));
            let ghost before = out@;
            out.push(s[i]);
            assert(before + (seq![rest[0]] + replaced(rest.skip(1), what@, with@)) =~= out@
                + replaced(rest.skip(1), what@, with@));
            i = i + 1;
        }
    }
    assert(s@.skip(i as int) =~= Seq::empty());
    out
}

/// A name as it was before it was escaped: spaces and dots stand for
/// themselves, and no backslash is left.
pub open spec fn unescaped(s: Seq<char>) -> Seq<char> {
    replaced(
        replaced(replaced(s, "\\032"@, " "@), "\\."@, "."@),
        "\\"@,
        Seq::empty(),
    )
}

fn unescape(s: &Vec<char>) -> (r: Vec<char>)
    ensures
        r@ == unescaped(s@),
{
    proof {
        reveal_strlit("\\032");
        reveal_strlit("\\.");
        reveal_strlit("\\");
    }
    let spaces = replace(s, &chars_of("\\032"), &chars_of(" "));
    let dots = replace(&spaces, &chars_of("\\."), &chars_of("."));
    let nothing: Vec<char> = Vec::new();
    replace(&dots, &chars_of("\\"), &nothing)
}

/// A text without the dots at its end.
pub open spec fn without_end_dots(s: Seq<char>) -> Seq<char>
    decreases s.len(),
{
    if s.len() > 0 && s.last() == '.' {
        without_end_dots(s.drop_last())
    } else {
        s
    }
}

fn trim_end_dots(s: &Vec<char>) -> (r: Vec<char>)
    ensures
        r@ == without_end_dots(s@),
{
    let mut n: usize = s.len();
    assert(s@.take(n as int) =~= s@);
    while n > 0 && s[n - 1] == '.'
        invariant
            n <= s@.len(),
            without_end_dots(s@.take(n as int)) == without_end_dots(s@),
        decreases n,
    {
        assert(s@.take(n as int).drop_last() =~= s@.take(n - 1));
        n = n - 1;
    }
    assert(s@.subrange(0, n as int) =~= s@.take(n as int));
    part(s, 0, n)
}

/// The number that a text stands for, or another where it stands for none.
pub open spec fn number_or(s: Seq<char>, max: nat, otherwise: nat) -> nat {
    match numeral(s, 10, max) {
        Numeral::Value(v) => v as nat,
        _ => otherwise,
    }
}

fn parse_or(s: &Vec<char>, max: u32, otherwise: u32) -> (n: u32)
    requires
        otherwise <= max,
    ensures
        n == number_or(s@, max as nat, otherwise as nat),
        n <= max,
{
    proof {
        crate::scan::lemma_numeral_bound(s@, 10, max as nat);
    }
    match parse_numeral(s, 10, max as u64) {
        Numeral::Value(v) => v as u32,
        _ => otherwise,
    }
}

/// The part of a text before another, or all of it where the other does not
/// occur.
pub open spec fn part_before(s: Seq<char>, what: Seq<char>) -> Seq<char> {
    if occurs_in(s, what) {
        s.take(first_place(s, what, 0))
    } else {
        s
    }
}

/// A record after a line that says where the service is: name, priority,
/// weight, port and host. A line with fewer words says nothing.
pub open spec fn located(r: RecordModel, line: Seq<char>) -> RecordModel {
    let w = words_of(line);
    if w.len() >= 6 {
        RecordModel {
            name: unescaped(part_before(w[0], "._usbip"@)),
            port: number_or(w[4], 65535, 3240) as u16,
            host: without_end_dots(w[5]),
            ..r
        }
    } else {
        r
    }
}

/// A record after one piece of a line that describes the service.
pub open spec fn piece_described(r: RecordModel, piece: Seq<char>) -> RecordModel {
    if begins_with(piece, "version="@) {
        RecordModel { version: piece.skip("version="@.len() as int), ..r }
    } else if begins_with(piece, "devices="@) {
        RecordModel {
            devices: number_or(piece.skip("devices="@.len() as int), 0xffff_ffff, 0) as u32,
            ..r
        }
    } else {
        r
    }
}

/// A record after a line that describes the service, piece by piece.
pub open spec fn described(r: RecordModel, line: Seq<Seq<char>>) -> RecordModel
    decreases line.len(),
{
    if line.len() == 0 {
        r
    } else {
        piece_described(described(r, line.drop_last()), line.last())
    }
}

/// What has been read of a listing: the record under way, and those that are
/// complete.
pub struct Listing {
    pub pending: RecordModel,
    pub complete: Seq<RecordModel>,
}

/// A listing after one more line. A record is complete once it has been
/// described and says where the service is.
pub open spec fn line_read(l: Listing, raw: Seq<char>) -> Listing {
    let line = trimmed(raw);
    if occurs_in(line, "SRV"@) {
        Listing { pending: located(l.pending, line), ..l }
    } else if occurs_in(line, "TXT"@) {
        let r = described(l.pending, split_on(line, '"'));
        if r.host.len() > 0 && r.port > 0 {
            Listing { pending: blank_record(), complete: l.complete.push(r) }
        } else {
            Listing { pending: r, ..l }
        }
    } else {
        l
    }
}

/// A listing after lines.
pub open spec fn lines_read(lines: Seq<Seq<char>>) -> Listing
    decreases lines.len(),
{
    if lines.len() == 0 {
        Listing { pending: blank_record(), complete: Seq::empty() }
    } else {
        line_read(lines_read(lines.drop_last()), lines.last())
    }
}

/// What records are.
pub open spec fn record_models(v: Seq<ServiceRecord>) -> Seq<RecordModel> {
    Seq::new(v.len(), |i: int| v[i]@)
}

fn locate(r: ServiceRecord, line: &Vec<char>) -> (n: ServiceRecord)
    ensures
        n@ == located(r@, line@),
{
    let w = words(line);
    if w.len() < 6 {
        return r;
    }
    assert(pieces(w@)[0] == w@[0]@ && pieces(w@)[4] == w@[4]@ && pieces(w@)[5] == w@[5]@);
    proof {
        reveal_strlit("._usbip");
    }
    let at: usize = find(&w[0], &chars_of("._usbip"));
    let raw = part(&w[0], 0, at);
    assert(raw@ =~= part_before(w@[0]@, "._usbip"@));
    ServiceRecord {
        name: string_of(&unescape(&raw)),
        port: parse_or(&w[4], 65535, 3240) as u16,
        host: string_of(&trim_end_dots(&w[5])),
        version: r.version,
        devices: r.devices,
    }
}

fn describe_piece(r: ServiceRecord, piece: &Vec<char>) -> (n: ServiceRecord)
    ensures
        n@ == piece_described(r@, piece@),
{
    let version = chars_of("version=");
    let devices = chars_of("devices=");
    if at_place(piece, 0, &version) {
        let rest = part(piece, version.len(), piece.len());
        assert(rest@ =~= piece@.skip(version@.len() as int));
        ServiceRecord {
            name: r.name,
            host: r.host,
            port: r.port,
            version: string_of(&rest),
            devices: r.devices,
        }
    } else if at_place(piece, 0, &devices) {
        let rest = part(piece, devices.len(), piece.len());
        assert(rest@ =~= piece@.skip(devices@.len() as int));
        ServiceRecord {
            name: r.name,
            host: r.host,
            port: r.port,
            version: r.version,
            devices: parse_or(&rest, 0xffff_ffff, 0),
        }
    } else {
        r
    }
}

fn describe(r: ServiceRecord, line: &Vec<char>) -> (n: ServiceRecord)
    ensures
        n@ == described(r@, split_on(line@, '"')),
{
    let p = split(line, '"');
    let mut n = r;
    let mut i: usize = 0;
    while i < p.len()
        invariant
            i <= p@.len(),
            n@ == described(r@, pieces(p@).take(i as int)),
        decreases p@.len() - i,
    {
        proof {
            assert(pieces(p@).take(i + 1).drop_last() =~= pieces(p@).take(i as int));
            assert(pieces(p@).take(i + 1).last() == p@[i as int]@);
        }
        n = describe_piece(n, &p[i]);
        i = i + 1;
    }
    assert(pieces(p@).take(i as int) =~= pieces(p@));
    n
}

/// The records of a listing of services, in order: of each, its name, where it
/// is, and what it says of itself.
pub fn parse_records(output: &str) -> (v: Vec<ServiceRecord>)
    ensures
        record_models(v@) == lines_read(split_on(output@, '\n')).complete,
{
    let lines = split(&chars_of(output), '\n');
    let srv = chars_of("SRV");
    let txt = chars_of("TXT");
    proof {
        reveal_strlit("SRV");
        reveal_strlit("TXT");
    }
    let mut pending = blank();
    let mut complete: Vec<ServiceRecord> = Vec::new();
    let mut i: usize = 0;
    assert(record_models(complete@) =~= Seq::empty());
    while i < lines.len()
        invariant
            i <= lines@.len(),
            srv@ == "SRV"@,
            txt@ == "TXT"@,
            srv@.len() > 0,
            txt@.len() > 0,
            pending@ == lines_read(pieces(lines@).take(i as int)).pending,
            record_models(complete@) == lines_read(pieces(lines@).take(i as int)).complete,
        decreases lines@.len() - i,
    {
        proof {
            assert(pieces(lines@).take(i + 1).drop_last() =~= pieces(lines@).take(i as int));
            assert(pieces(lines@).take(i + 1).last() == lines@[i as int]@);
        }
        let line = trim(&lines[i]);
        if find(&line, &srv) < line.len() {
            pending = locate(pending, &line);
        } else if find(&line, &txt) < line.len() {
            let r = describe(pending, &line);
            if r.host.as_str().unicode_len() > 0 && r.port > 0 {
                let ghost before = complete@;
                complete.push(r);
                assert(record_models(complete@) =~= record_models(before).push(r@));
                pending = blank();
            } else {
                pending = r;
            }
        }
        i = i + 1;
    }
    assert(pieces(lines@).take(i as int) =~= pieces(lines@));
    complete
}

/// The address to use of those that a host has: the first IPv4 address, or else
/// the first.
pub open spec fn preferred(addrs: Seq<ServerAddr>) -> Option<ServerAddr>
    decreases addrs.len(),
{
    if addrs.len() == 0 {
        None
    } else {
        match first_ipv4(addrs, 0) {
            Some(a) => Some(a),
            None => Some(addrs[0]),
        }
    }
}

/// The first IPv4 address from a place on.
pub open spec fn first_ipv4(addrs: Seq<ServerAddr>, from: int) -> Option<ServerAddr>
    decreases addrs.len() - from,
{
    if from >= addrs.len() {
        None
    } else if !addrs[from].ipv6 {
        Some(addrs[from])
    } else {
        first_ipv4(addrs, from + 1)
    }
}

/// The address to use of those that a host has.
pub fn preferred_addr(addrs: &Vec<ServerAddr>) -> (r: Option<ServerAddr>)
    ensures
        r == preferred(addrs@),
{
    let mut i: usize = 0;
    while i < addrs.len()
        invariant
            i <= addrs@.len(),
            first_ipv4(addrs@, 0) == first_ipv4(addrs@, i as int),
        decreases addrs@.len() - i,
    {
        if !addrs[i].ipv6 {
            return Some(addrs[i].copy());
        }
        i = i + 1;
    }
    if addrs.len() > 0 {
        Some(addrs[0].copy())
    } else {
        None
    }
}

/// What a server that was found is, by what its fields hold.
pub struct ServerModel {
    pub hostname: Seq<char>,
    pub addr: ServerAddr,
    pub version: Seq<char>,
    pub device_count: u32,
}

impl View for DiscoveredServer {
    type V = ServerModel;

    open spec fn view(&self) -> ServerModel {
        ServerModel {
            hostname: self.hostname@,
            addr: self.addr,
            version: self.version@,
            device_count: self.device_count,
        }
    }
}

/// What servers are.
pub open spec fn server_models(v: Seq<DiscoveredServer>) -> Seq<ServerModel> {
    Seq::new(v.len(), |i: int| v[i]@)
}

/// Some server has a name.
pub open spec fn has_name(servers: Seq<ServerModel>, name: Seq<char>) -> bool {
    exists|i: int| 0 <= i < servers.len() && #[trigger] servers[i].hostname == name
}

/// The servers of records, with the addresses that the host of each was found
/// to have. A record without an address is left out, and so is one whose name
/// has come before.
pub open spec fn servers_of(
    records: Seq<RecordModel>,
    resolved: Seq<Seq<ServerAddr>>,
) -> Seq<ServerModel>
    decreases records.len(),
{
    if records.len() == 0 {
        Seq::empty()
    } else {
        let front = servers_of(records.drop_last(), resolved);
        let r = records.last();
        match preferred(resolved[records.len() - 1]) {
            Some(addr) => if has_name(front, r.name) {
                front
            } else {
                front.push(
                    ServerModel {
                        hostname: r.name,
                        addr,
                        version: r.version,
                        device_count: r.devices,
                    },
                )
            },
            None => front,
        }
    }
}

/// What lists of addresses hold.
pub open spec fn address_lists(v: Seq<Vec<ServerAddr>>) -> Seq<Seq<ServerAddr>> {
    Seq::new(v.len(), |i: int| v[i]@)
}

fn name_taken(servers: &Vec<DiscoveredServer>, name: &String) -> (b: bool)
    ensures
        b == has_name(server_models(servers@), name@),
{
    let wanted = chars_of(name.as_str());
    let mut i: usize = 0;
    while i < servers.len()
        invariant
            i <= servers@.len(),
            wanted@ == name@,
            forall|j: int| 0 <= j < i ==> server_models(servers@)[j].hostname != name@,
        decreases servers@.len() - i,
    {
        assert(server_models(servers@)[i as int].hostname == servers@[i as int].hostname@);
        if same(&chars_of(servers[i].hostname.as_str()), &wanted) {
            return true;
        }
        i = i + 1;
    }
    false
}

/// The servers of records, with the addresses that the host of each was found
/// to have.
pub fn collect_servers(records: &Vec<ServiceRecord>, resolved: &Vec<Vec<ServerAddr>>) -> (v: Vec<
    DiscoveredServer,
>)
    requires
        records@.len() == resolved@.len(),
    ensures
        server_models(v@) == servers_of(record_models(records@), address_lists(resolved@)),
{
    let mut out: Vec<DiscoveredServer> = Vec::new();
    let ghost models = record_models(records@);
    let ghost lists = address_lists(resolved@);
    let mut i: usize = 0;
    assert(server_models(out@) =~= servers_of(models.take(0), lists));
    while i < records.len()
        invariant
            i <= records@.len(),
            records@.len() == resolved@.len(),
            models == record_models(records@),
            lists == address_lists(resolved@),
            server_models(out@) == servers_of(models.take(i as int), lists),
        decreases records@.len() - i,
    {
        proof {
            assert(models.take(i + 1).drop_last() =~= models.take(i as int));
            assert(models.take(i + 1).last() == records@[i as int]@);
            assert(lists[i as int] == resolved@[i as int]@);
        }
        match preferred_addr(&resolved[i]) {
            Some(addr) => {
                if !name_taken(&out, &records[i].name) {
                    let ghost before = out@;
                    let server = DiscoveredServer {
                        hostname: records[i].name.clone(),
                        addr,
                        version: records[i].version.clone(),
                        device_count: records[i].devices,
                    };
                    out.push(server);
                    assert(server_models(out@) =~= server_models(before).push(server@));
                }
            },
            None => {},
        }
        i = i + 1;
    }
    assert(models.take(i as int) =~= models);
    out
}

/// The servers that a listing of services shows have names of their own.
pub proof fn law_names_differ(records: Seq<RecordModel>, resolved: Seq<Seq<ServerAddr>>)
    ensures
        forall|i: int, j: int|
            0 <= i < j < servers_of(records, resolved).len() ==> #[trigger] servers_of(
                records,
                resolved,
            )[i].hostname != #[trigger] servers_of(records, resolved)[j].hostname,
    decreases records.len(),
{
    if records.len() > 0 {
        law_names_differ(records.drop_last(), resolved);
        let front = servers_of(records.drop_last(), resolved);
        let all = servers_of(records, resolved);
        assert forall|i: int, j: int| 0 <= i < j < all.len() implies #[trigger] all[i].hostname
            != #[trigger] all[j].hostname by {
            assert(all[i] == front[i]);
            if j < front.len() {
                assert(all[j] == front[j]);
            } else {
                assert(!has_name(front, all[j].hostname));
            }
        }
    }
}

/// One server for every address under which a service was resolved. A service
/// that says no version has an unknown one, and one that says no number of
/// devices has none.
pub open spec fn resolved_models(
    fullname: Seq<char>,
    version: Option<Seq<char>>,
    devices: Option<Seq<char>>,
    addrs: Seq<ServerAddr>,
) -> Seq<ServerModel> {
    Seq::new(
        addrs.len(),
        |i: int|
            ServerModel {
                hostname: fullname,
                addr: addrs[i],
                version: match version {
                    Some(v) => v,
                    None => "unknown"@,
                },
                device_count: match devices {
                    Some(d) => number_or(d, 0xffff_ffff, 0) as u32,
                    None => 0,
                },
            },
    )
}

/// One server for every address under which a service was resolved.
pub fn resolved_servers(
    fullname: &str,
    version: Option<String>,
    devices: Option<String>,
    addrs: &Vec<ServerAddr>,
) -> (v: Vec<DiscoveredServer>)
    ensures
        server_models(v@) == resolved_models(
            fullname@,
            text_option(version),
            text_option(devices),
            addrs@,
        ),
{
    let said: String = match &version {
        Some(v) => v.clone(),
        None => "unknown".to_owned(),
    };
    let count: u32 = match &devices {
        Some(d) => parse_or(&chars_of(d.as_str()), 0xffff_ffff, 0),
        None => 0,
    };
    let mut out: Vec<DiscoveredServer> = Vec::new();
    let mut i: usize = 0;
    let ghost all = resolved_models(fullname@, text_option(version), text_option(devices), addrs@);
    while i < addrs.len()
        invariant
            i <= addrs@.len(),
            all == resolved_models(fullname@, text_option(version), text_option(devices), addrs@),
            said@ == match text_option(version) {
                Some(v) => v,
                None => "unknown"@,
            },
            count == match text_option(devices) {
                Some(d) => number_or(d, 0xffff_ffff, 0) as u32,
                None => 0,
            },
            server_models(out@) == all.take(i as int),
        decreases addrs@.len() - i,
    {
        let ghost before = out@;
        let server = DiscoveredServer {
            hostname: fullname.to_owned(),
            addr: addrs[i].copy(),
            version: said.clone(),
            device_count: count,
        };
        out.push(server);
        assert(server@ == all[i as int]);
        assert(server_models(out@) =~= server_models(before).push(server@));
        assert(all.take(i + 1) =~= all.take(i as int).push(all[i as int]));
        i = i + 1;
    }
    assert(all.take(i as int) =~= all);
    out
}

/// A text comes before another in the order of its characters.
pub open spec fn text_before(a: Seq<char>, b: Seq<char>) -> bool
    decreases a.len(),
{
    if b.len() == 0 {
        false
    } else if a.len() == 0 {
        true
    } else if a[0] != b[0] {
        (a[0] as int) < (b[0] as int)
    } else {
        text_before(a.skip(1), b.skip(1))
    }
}

proof fn lemma_before_irreflexive(a: Seq<char>)
    ensures
        !text_before(a, a),
    decreases a.len(),
{
    if a.len() > 0 {
        lemma_before_irreflexive(a.skip(1));
    }
}

proof fn lemma_before_total(a: Seq<char>, b: Seq<char>)
    ensures
        a == b || text_before(a, b) || text_before(b, a),
    decreases a.len(),
{
    if a.len() == 0 || b.len() == 0 {
        if a.len() == 0 && b.len() == 0 {
            assert(a =~= b);
        }
    } else if a[0] == b[0] {
        lemma_before_total(a.skip(1), b.skip(1));
        if a.skip(1) == b.skip(1) {
            assert(a =~= seq![a[0]] + a.skip(1));
            assert(b =~= seq![b[0]] + b.skip(1));
        }
    } else {
        assert(a[0] as int != b[0] as int);
    }
}

proof fn lemma_before_transitive(a: Seq<char>, b: Seq<char>, c: Seq<char>)
    requires
        text_before(a, b),
        text_before(b, c),
    ensures
        text_before(a, c),
    decreases a.len(),
{
    if a.len() > 0 && b.len() > 0 && c.len() > 0 && a[0] == b[0] && b[0] == c[0] {
        lemma_before_transitive(a.skip(1), b.skip(1), c.skip(1));
    }
}

fn comes_before(a: &Vec<char>, b: &Vec<char>) -> (r: bool)
    ensures
        r == text_before(a@, b@),
{
    let mut i: usize = 0;
    assert(a@.skip(0) =~= a@);
    assert(b@.skip(0) =~= b@);
    while i < a.len() && i < b.len()
        invariant
            i <= a@.len(),
            i <= b@.len(),
            text_before(a@, b@) == text_before(a@.skip(i as int), b@.skip(i as int)),
        decreases a@.len() - i,
    {
        if a[i] != b[i] {
            let x: char = a[i];
            let y: char = b[i];
            return x < y;
        }
        assert(a@.skip(i as int).skip(1) =~= a@.skip(i + 1));
        assert(b@.skip(i as int).skip(1) =~= b@.skip(i + 1));
        i = i + 1;
    }
    i < b.len()
}

/// Servers are in the order of their addresses as text, without any address
/// twice.
pub open spec fn in_order(s: Seq<ServerModel>) -> bool {
    forall|i: int, j: int|
        0 <= i < j < s.len() ==> text_before(
            (#[trigger] s[i]).addr.text(),
            (#[trigger] s[j]).addr.text(),
        )
}

/// A server is the first of some servers that has its address.
pub open spec fn first_with_address(all: Seq<ServerModel>, s: ServerModel) -> bool {
    exists|k: int|
        {
            &&& 0 <= k < all.len()
            &&& #[trigger] all[k] == s
            &&& forall|m: int| 0 <= m < k ==> (#[trigger] all[m]).addr.text() != s.addr.text()
        }
}

/// The address of a server is among those of some servers.
pub open spec fn has_address(servers: Seq<ServerModel>, addr: Seq<char>) -> bool {
    exists|i: int| 0 <= i < servers.len() && (#[trigger] servers[i]).addr.text() == addr
}

/// What is left of servers of which some have the same address: of each address
/// the first, in the order of the addresses as text.
pub open spec fn distinct(all: Seq<ServerModel>, left: Seq<ServerModel>) -> bool {
    &&& in_order(left)
    &&& forall|i: int| 0 <= i < left.len() ==> first_with_address(all, #[trigger] left[i])
    &&& forall|k: int|
        0 <= k < all.len() ==> has_address(left, (#[trigger] all[k]).addr.text())
}

/// Of servers of which some have the same address, the first of each address,
/// in the order of the addresses as text.
pub fn distinct_servers(servers: Vec<DiscoveredServer>) -> (v: Vec<DiscoveredServer>)
    ensures
        distinct(server_models(servers@), server_models(v@)),
{
    let ghost all = server_models(servers@);
    let mut rest: Vec<DiscoveredServer> = servers;
    let mut out: Vec<DiscoveredServer> = Vec::new();
    let ghost mut n: int = 0;
    while rest.len() > 0
        invariant
            0 <= n <= all.len(),
            server_models(rest@) == all.skip(n),
            distinct(all.take(n), server_models(out@)),
        decreases rest@.len(),
    {
        let ghost before_rest = rest@;
        assert(server_models(before_rest).len() == all.skip(n).len());
        let server = rest.remove(0);
        assert(server@ == all[n]) by {
            assert(server_models(before_rest)[0] == server@);
            assert(server_models(before_rest)[0] == all.skip(n)[0]);
        }
        assert(rest@ =~= before_rest.skip(1));
        assert(server_models(rest@) =~= all.skip(n + 1)) by {
            assert forall|i: int| 0 <= i < rest@.len() implies server_models(rest@)[i] == all.skip(
                n + 1,
            )[i] by {
                assert(server_models(before_rest)[i + 1] == all.skip(n)[i + 1]);
            }
        }
        let ghost old_out = server_models(out@);
        let placed = place_server(&mut out, server);
        proof {
            lemma_placed(all, n, old_out, server_models(out@), placed);
            n = n + 1;
        }
    }
    assert(all.take(n) =~= all);
    out
}

fn place_server(out: &mut Vec<DiscoveredServer>, server: DiscoveredServer) -> (placed: Option<usize>)
    requires
        in_order(server_models(old(out)@)),
    ensures
        match placed {
            Some(at) => {
                &&& at <= old(out)@.len()
                &&& server_models(final(out)@) == server_models(old(out)@).insert(
                    at as int,
                    server@,
                )
                &&& forall|i: int|
                    0 <= i < at ==> text_before(
                        (#[trigger] server_models(old(out)@)[i]).addr.text(),
                        server@.addr.text(),
                    )
                &&& forall|i: int|
                    at <= i < old(out)@.len() ==> text_before(
                        server@.addr.text(),
                        (#[trigger] server_models(old(out)@)[i]).addr.text(),
                    )
            },
            None => {
                &&& server_models(final(out)@) == server_models(old(out)@)
                &&& has_address(server_models(old(out)@), server@.addr.text())
            },
        },
{
    let key = chars_of(server.addr.to_text().as_str());
    let ghost models = server_models(out@);
    let mut at: usize = 0;
    while at < out.len()
        invariant
            at <= out@.len(),
            out@ == old(out)@,
            models == server_models(out@),
            in_order(models),
            key@ == server@.addr.text(),
            forall|i: int| 0 <= i < at ==> text_before((#[trigger] models[i]).addr.text(), key@),
        decreases out@.len() - at,
    {
        let other = chars_of(out[at].addr.to_text().as_str());
        assert(other@ == models[at as int].addr.text());
        if comes_before(&other, &key) {
            at = at + 1;
        } else {
            if !comes_before(&key, &other) {
                proof {
                    lemma_before_total(other@, key@);
                    assert(models[at as int].addr.text() == key@);
                }
                return None;
            }
            proof {
                assert forall|i: int| at <= i < models.len() implies text_before(
                    key@,
                    (#[trigger] models[i]).addr.text(),
                ) by {
                    if i > at {
                        lemma_before_transitive(key@, models[at as int].addr.text(), models[i].addr.text());
                    }
                }
            }
            out.insert(at, server);
            assert(server_models(out@) =~= models.insert(at as int, server@));
            return Some(at);
        }
    }
    out.insert(at, server);
    assert(server_models(out@) =~= models.insert(at as int, server@));
    Some(at)
}

proof fn lemma_placed(
    all: Seq<ServerModel>,
    n: int,
    before: Seq<ServerModel>,
    after: Seq<ServerModel>,
    placed: Option<usize>,
)
    requires
        0 <= n < all.len(),
        distinct(all.take(n), before),
        match placed {
            Some(at) => {
                &&& at <= before.len()
                &&& after == before.insert(at as int, all[n])
                &&& forall|i: int|
                    0 <= i < at ==> text_before(
                        (#[trigger] before[i]).addr.text(),
                        all[n].addr.text(),
                    )
                &&& forall|i: int|
                    at <= i < before.len() ==> text_before(
                        all[n].addr.text(),
                        (#[trigger] before[i]).addr.text(),
                    )
            },
            None => after == before && has_address(before, all[n].addr.text()),
        },
    ensures
        distinct(all.take(n + 1), after),
{
    let old_all = all.take(n);
    let new_all = all.take(n + 1);
    assert forall|s: ServerModel| first_with_address(old_all, s) implies first_with_address(
        new_all,
        s,
    ) by {
        let k = choose|k: int|
            {
                &&& 0 <= k < old_all.len()
                &&& #[trigger] old_all[k] == s
                &&& forall|m: int|
                    0 <= m < k ==> (#[trigger] old_all[m]).addr.text() != s.addr.text()
            };
        assert(new_all[k] == s);
        assert forall|m: int| 0 <= m < k implies (#[trigger] new_all[m]).addr.text()
            != s.addr.text() by {
            assert(old_all[m] == new_all[m]);
        }
    }
    match placed {
        Some(at) => {
            let at = at as int;
            let new = all[n];
            assert(after[at] == new);
            assert forall|i: int| 0 <= i < before.len() implies has_address(
                after,
                (#[trigger] before[i]).addr.text(),
            ) by {
                if i < at {
                    assert(after[i] == before[i]);
                } else {
                    assert(after[i + 1] == before[i]);
                }
            }
            assert(in_order(after)) by {
                assert forall|i: int, j: int| 0 <= i < j < after.len() implies text_before(
                    (#[trigger] after[i]).addr.text(),
                    (#[trigger] after[j]).addr.text(),
                ) by {
                    let bi = if i < at {
                        i
                    } else {
                        i - 1
                    };
                    let bj = if j < at {
                        j
                    } else {
                        j - 1
                    };
                    if i != at {
                        assert(after[i] == before[bi]);
                    }
                    if j != at {
                        assert(after[j] == before[bj]);
                    }
                }
            }
            assert(first_with_address(new_all, new)) by {
                assert(new_all[n] == new);
                assert forall|m: int| 0 <= m < n implies (#[trigger] new_all[m]).addr.text()
                    != new.addr.text() by {
                    assert(old_all[m] == new_all[m]);
                    assert(has_address(before, old_all[m].addr.text()));
                    let i = choose|i: int|
                        0 <= i < before.len() && (#[trigger] before[i]).addr.text()
                            == old_all[m].addr.text();
                    lemma_before_irreflexive(new.addr.text());
                }
            }
            assert forall|i: int| 0 <= i < after.len() implies first_with_address(
                new_all,
                #[trigger] after[i],
            ) by {
                if i < at {
                    assert(after[i] == before[i]);
                } else if i > at {
                    assert(after[i] == before[i - 1]);
                }
            }
            assert forall|k: int| 0 <= k < new_all.len() implies has_address(
                after,
                (#[trigger] new_all[k]).addr.text(),
            ) by {
                if k < n {
                    assert(old_all[k] == new_all[k]);
                    let i = choose|i: int|
                        0 <= i < before.len() && (#[trigger] before[i]).addr.text()
                            == old_all[k].addr.text();
                    assert(has_address(after, before[i].addr.text()));
                } else {
                    assert(after[at].addr.text() == new_all[k].addr.text());
                }
            }
        },
        None => {
            assert forall|k: int| 0 <= k < new_all.len() implies has_address(
                after,
                (#[trigger] new_all[k]).addr.text(),
            ) by {
                if k < n {
                    assert(old_all[k] == new_all[k]);
                }
            }
        },
    }
}

/// The address to use is one of the host's, and an IPv4 address where the host
/// has one; there is none only where the host has none.
pub proof fn law_address_preferred(addrs: Vec<ServerAddr>, r: Option<ServerAddr>)
    requires
        call_ensures(preferred_addr, (&addrs,), r),
    ensures
        r is None <==> addrs@.len() == 0,
        r matches Some(a) ==> addrs@.contains(a),
        r matches Some(a) ==> (a.ipv6 ==> forall|i: int|
            0 <= i < addrs@.len() ==> (#[trigger] addrs@[i]).ipv6),
        forall|i: int|
            0 <= i < addrs@.len() && !(#[trigger] addrs@[i]).ipv6 && (forall|j: int|
                0 <= j < i ==> (#[trigger] addrs@[j]).ipv6) ==> r == Some(addrs@[i]),
{
    lemma_first_ipv4(addrs@, 0);
    if addrs@.len() > 0 {
        assert(addrs@.contains(addrs@[0]));
    }
}

proof fn lemma_first_ipv4(addrs: Seq<ServerAddr>, from: int)
    requires
        0 <= from <= addrs.len(),
    ensures
        match first_ipv4(addrs, from) {
            Some(a) => !a.ipv6 && addrs.contains(a),
            None => forall|i: int| from <= i < addrs.len() ==> (#[trigger] addrs[i]).ipv6,
        },
        forall|i: int|
            from <= i < addrs.len() && !(#[trigger] addrs[i]).ipv6 && (forall|j: int|
                from <= j < i ==> (#[trigger] addrs[j]).ipv6) ==> first_ipv4(addrs, from) == Some(
                addrs[i],
            ),
    decreases addrs.len() - from,
{
    if from < addrs.len() {
        assert(addrs.contains(addrs[from]));
        if addrs[from].ipv6 {
            lemma_first_ipv4(addrs, from + 1);
        }
    }
}

/// Every server that is collected is that of a record, with its name, version
/// and number of devices, at the address to use of those of its host; and every
/// record whose host has an address has a server of its name.
pub proof fn law_servers_collected(
    records: Vec<ServiceRecord>,
    resolved: Vec<Vec<ServerAddr>>,
    v: Vec<DiscoveredServer>,
    i: int,
    k: int,
)
    requires
        records@.len() == resolved@.len(),
        call_ensures(collect_servers, (&records, &resolved), v),
        0 <= i < v@.len(),
        0 <= k < records@.len(),
    ensures
        exists|r: int|
            #![trigger records@[r]]
            0 <= r < records@.len() && v@[i].hostname@ == records@[r].name@ && v@[i].version@
                == records@[r].version@ && v@[i].device_count == records@[r].devices && (
            forall|a: Option<ServerAddr>| #[trigger]
                call_ensures(preferred_addr, (&resolved@[r],), a) ==> a == Some(v@[i].addr)),
        resolved@[k]@.len() > 0 ==> exists|j: int|
            0 <= j < v@.len() && (#[trigger] v@[j]).hostname@ == records@[k].name@,
{
    let rs = record_models(records@);
    let ls = address_lists(resolved@);
    lemma_servers_of(rs, ls, i, k);
    let m = server_models(v@);
    assert(m.len() == v@.len());
    assert(m[i] == v@[i]@);
    let r = choose|r: int|
        #![trigger rs[r]]
        0 <= r < rs.len() && m[i].hostname == rs[r].name && m[i].version == rs[r].version
            && m[i].device_count == rs[r].devices && preferred(ls[r]) == Some(m[i].addr);
    assert(rs[r] == records@[r]@);
    assert(ls[r] == resolved@[r]@);
    assert(records@[r].name@ == v@[i].hostname@);
    assert(ls[k] == resolved@[k]@);
    if resolved@[k]@.len() > 0 {
        assert(rs[k] == records@[k]@);
        let j = choose|j: int| 0 <= j < m.len() && #[trigger] m[j].hostname == rs[k].name;
        assert(m[j] == v@[j]@);
    }
}

proof fn lemma_servers_of(
    records: Seq<RecordModel>,
    resolved: Seq<Seq<ServerAddr>>,
    i: int,
    k: int,
)
    requires
        records.len() <= resolved.len(),
    ensures
        0 <= i < servers_of(records, resolved).len() ==> exists|r: int|
            #![trigger records[r]]
            {
                let s = servers_of(records, resolved)[i];
                0 <= r < records.len() && s.hostname == records[r].name && s.version
                    == records[r].version && s.device_count == records[r].devices && preferred(
                    resolved[r],
                ) == Some(s.addr)
            },
        0 <= k < records.len() && resolved[k].len() > 0 ==> has_name(
            servers_of(records, resolved),
            records[k].name,
        ),
    decreases records.len(),
{
    if records.len() > 0 {
        let shorter = records.drop_last();
        let front = servers_of(shorter, resolved);
        let all = servers_of(records, resolved);
        let last = records.len() - 1;
        lemma_servers_of(shorter, resolved, i, k);
        assert(records[last] == records.last());
        if 0 <= i < all.len() {
            if i < front.len() {
                assert(all[i] == front[i]);
                let r = choose|r: int|
                    #![trigger shorter[r]]
                    0 <= r < shorter.len() && front[i].hostname == shorter[r].name
                        && front[i].version == shorter[r].version && front[i].device_count
                        == shorter[r].devices && preferred(resolved[r]) == Some(front[i].addr);
                assert(records[r] == shorter[r]);
            }
        }
        if 0 <= k < records.len() && resolved[k].len() > 0 {
            if k < last {
                assert(shorter[k] == records[k]);
                let j = choose|j: int|
                    0 <= j < front.len() && #[trigger] front[j].hostname == records[k].name;
                assert(all[j].hostname == records[k].name);
            } else if has_name(front, records[k].name) {
                let j = choose|j: int|
                    0 <= j < front.len() && #[trigger] front[j].hostname == records[k].name;
                assert(all[j].hostname == records[k].name);
            } else {
                assert(all[front.len() as int].hostname == records[k].name);
            }
        }
    }
}

/// A service that was resolved gives one server for every address, in their
/// order, each under its full name, with the version and the number of devices
/// that it says.
pub proof fn law_service_resolved(
    fullname: &str,
    version: Option<String>,
    devices: Option<String>,
    addrs: Vec<ServerAddr>,
    v: Vec<DiscoveredServer>,
    i: int,
)
    requires
        call_ensures(resolved_servers, (fullname, version, devices, &addrs), v),
        0 <= i < v@.len(),
    ensures
        v@.len() == addrs@.len(),
        v@[i].hostname@ == fullname@,
        v@[i].addr == addrs@[i],
        version matches Some(t) ==> v@[i].version@ == t@,
        version is None ==> v@[i].version@ == "unknown"@,
        devices is None ==> v@[i].device_count == 0,
        devices matches Some(d) ==> (numeral(d@, 10, 0xffff_ffff) matches Numeral::Value(n)
            ==> v@[i].device_count == n),
        devices matches Some(d) ==> (!(numeral(d@, 10, 0xffff_ffff) is Value)
            ==> v@[i].device_count == 0),
{
    let m = server_models(v@);
    assert(m.len() == v@.len());
    assert(m[i] == v@[i]@);
    if let Some(d) = devices {
        crate::scan::lemma_numeral_bound(d@, 10, 0xffff_ffff);
    }
}

/// What is left of servers has every address once, in the order of the addresses
/// as text, and of every address the server that came first.
pub proof fn law_servers_distinct(
    servers: Vec<DiscoveredServer>,
    v: Vec<DiscoveredServer>,
    i: int,
    j: int,
    k: int,
)
    requires
        call_ensures(distinct_servers, (servers,), v),
        0 <= i < j < v@.len(),
        0 <= k < servers@.len(),
    ensures
        text_before(v@[i].addr.text(), v@[j].addr.text()),
        v@[i].addr.text() != v@[j].addr.text(),
        exists|n: int| 0 <= n < v@.len() && (#[trigger] v@[n]).addr.text() == servers@[k].addr.text(),
        exists|n: int| 0 <= n < servers@.len() && (#[trigger] servers@[n])@ == v@[i]@,
        v@[i].addr.text() == servers@[k].addr.text() && (forall|n: int|
            0 <= n < k ==> (#[trigger] servers@[n]).addr.text() != servers@[k].addr.text())
            ==> v@[i]@ == servers@[k]@,
{
    let all = server_models(servers@);
    let m = server_models(v@);
    assert(m[i] == v@[i]@ && m[j] == v@[j]@ && all[k] == servers@[k]@);
    lemma_before_irreflexive(v@[i].addr.text());
    assert(has_address(m, all[k].addr.text()));
    let n = choose|n: int| 0 <= n < m.len() && (#[trigger] m[n]).addr.text() == all[k].addr.text();
    assert(m[n] == v@[n]@);
    assert(v@[n].addr.text() == servers@[k].addr.text());
    assert(first_with_address(all, m[i]));
    let f = choose|f: int|
        {
            &&& 0 <= f < all.len()
            &&& #[trigger] all[f] == m[i]
            &&& forall|q: int| 0 <= q < f ==> (#[trigger] all[q]).addr.text() != m[i].addr.text()
        };
    assert(all[f] == servers@[f]@);
    assert(servers@[f]@ == v@[i]@);
    if v@[i].addr.text() == servers@[k].addr.text() && (forall|q: int|
        0 <= q < k ==> (#[trigger] servers@[q]).addr.text() != servers@[k].addr.text()) {
        if f < k {
            assert(servers@[f].addr.text() != servers@[k].addr.text());
        }
        if k < f {
            assert(all[k].addr.text() != m[i].addr.text());
        }
    }
}

/// A listing of two lines gives one record: of the first line the fifth word is
/// the port and the sixth the host, and of the second line the quoted pieces are
/// the version and the number of devices.
#[verifier::spinoff_prover]
pub proof fn law_record_read(
    output: &str,
    place: Seq<char>,
    says: Seq<char>,
    port: u16,
    version: Seq<char>,
    devices: u32,
    between: Seq<Seq<char>>,
    v: Vec<ServiceRecord>,
)
    requires
        call_ensures(parse_records, (output,), v),
        split_on(output@, '\n') == seq![place, says],
        occurs_in(trimmed(place), "SRV"@),
        !occurs_in(trimmed(says), "SRV"@),
        occurs_in(trimmed(says), "TXT"@),
        words_of(trimmed(place)).len() >= 6,
        numeral(words_of(trimmed(place))[4], 10, 65535) == Numeral::Value(port as u64),
        port > 0,
        words_of(trimmed(place))[5].len() > 0,
        words_of(trimmed(place))[5].last() != '.',
        between.len() == 3,
        forall|i: int|
            0 <= i < 3 ==> !begins_with(#[trigger] between[i], "version="@) && !begins_with(
                between[i],
                "devices="@,
            ),
        split_on(trimmed(says), '"') == seq![
            between[0],
            "version="@ + version,
            between[1],
            "devices="@ + decimal(devices as nat),
            between[2],
        ],
    ensures
        v@.len() == 1,
        v@[0].port == port,
        v@[0].host@ == words_of(trimmed(place))[5],
        v@[0].version@ == version,
        v@[0].devices == devices,
{
    let lines = seq![place, says];
    reveal_with_fuel(lines_read, 3);
    assert(lines.drop_last() =~= seq![place]);
    assert(lines.drop_last().drop_last() =~= Seq::empty());
    assert(lines.last() == says && lines.drop_last().last() == place);
    let l = trimmed(place);
    let r = located(blank_record(), l);
    reveal_with_fuel(without_end_dots, 2);
    assert(r.port == port);
    assert(r.host == words_of(l)[5]);
    let ps = split_on(trimmed(says), '"');
    lemma_described(r, between, version, devices);
    let d = described(r, ps);
    let m = record_models(v@);
    assert(m.len() == v@.len());
    assert(m =~= seq![d]);
    assert(m[0] == v@[0]@);
}

proof fn lemma_described(
    r: RecordModel,
    between: Seq<Seq<char>>,
    version: Seq<char>,
    devices: u32,
)
    requires
        between.len() == 3,
        forall|i: int|
            0 <= i < 3 ==> !begins_with(#[trigger] between[i], "version="@) && !begins_with(
                between[i],
                "devices="@,
            ),
    ensures
        described(
            r,
            seq![
                between[0],
                "version="@ + version,
                between[1],
                "devices="@ + decimal(devices as nat),
                between[2],
            ],
        ) == (RecordModel { version, devices, ..r }),
{
    let (p1, p3) = ("version="@ + version, "devices="@ + decimal(devices as nat));
    let ps = seq![between[0], p1, between[1], p3, between[2]];
    reveal_with_fuel(described, 6);
    assert(ps.drop_last() =~= ps.take(4) && ps.last() == ps[4]);
    assert(ps.take(4).drop_last() =~= ps.take(3) && ps.take(4).last() == p3);
    assert(ps.take(3).drop_last() =~= ps.take(2) && ps.take(3).last() == ps[2]);
    assert(ps.take(2).drop_last() =~= ps.take(1) && ps.take(2).last() == p1);
    assert(ps.take(1).drop_last() =~= Seq::empty() && ps.take(1).last() == ps[0]);
    reveal_strlit("version=");
    reveal_strlit("devices=");
    assert(p1.subrange(0, 8) =~= "version="@);
    assert(p3.subrange(0, 8) =~= "devices="@);
    assert("version="@[0] == 'v' && "devices="@[0] == 'd');
    assert(p3.subrange(0, 8)[0] == 'd');
    assert(!begins_with(p3, "version="@));
    assert(p1.skip(8) =~= version);
    assert(p3.skip(8) =~= decimal(devices as nat));
    law_decimal_read(devices as nat, 0xffff_ffff);
}

/// A name without backslashes is read as it is written.
pub proof fn law_plain_name(s: Seq<char>)
    requires
        forall|i: int| 0 <= i < s.len() ==> #[trigger] s[i] != '\\',
    ensures
        unescaped(s) == s,
{
    reveal_strlit("\\032");
    reveal_strlit("\\.");
    reveal_strlit("\\");
    lemma_nothing_replaced(s, "\\032"@, " "@);
    lemma_nothing_replaced(s, "\\."@, "."@);
    lemma_nothing_replaced(s, "\\"@, Seq::empty());
}

proof fn lemma_nothing_replaced(s: Seq<char>, what: Seq<char>, with: Seq<char>)
    requires
        what.len() > 0,
        forall|i: int| 0 <= i < s.len() ==> #[trigger] s[i] != what[0],
    ensures
        replaced(s, what, with) == s,
    decreases s.len(),
{
    if s.len() > 0 {
        if begins_with(s, what) {
            assert(s.subrange(0, what.len() as int)[0] == s[0]);
        }
        let t = s.skip(1);
        assert forall|i: int| 0 <= i < t.len() implies #[trigger] t[i] != what[0] by {
            assert(t[i] == s[i + 1]);
        }
        lemma_nothing_replaced(t, what, with);
        assert(seq![s[0]] + t =~= s);
    }
}

} // verus!
