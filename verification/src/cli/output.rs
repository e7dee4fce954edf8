//! What the command line shows: tables, bare names, or JSON.

use vstd::prelude::*;
use vstd::string::*;

use crate::api::json::{is_text, texts, Json};
use crate::api::types::{
    DaemonStatus, DeviceInfo, DeviceInfoModel, ExportedDeviceInfo, ExportedInfoModel,
    ImportedDeviceInfo, UsbSpeed,
};
use crate::client::discover::{DiscoveredServer, ServerModel};
use crate::text::{
    chars_of, decimal, decimal_string, hex_digits, hex_string, string_of, text_option,
};

verus! {

/// How things are shown.
#[derive(Debug, Clone, Copy, PartialEq, Eq, Structural)]
pub enum OutputFormat {
    /// As tables, for people.
    Human,
    /// As JSON.
    Json,
    /// As bare names, for programs.
    Quiet,
}

impl Default for OutputFormat {
    fn default() -> (f: Self)
        ensures
            f == OutputFormat::Human,
    {
        OutputFormat::Human
    }
}

/// What is shown.
#[derive(Debug)]
pub enum Shown {
    /// These lines.
    Lines(Vec<String>),
    /// This JSON value.
    Value(Json),
    /// What was to be shown, as JSON.
    Itself,
}

/// How a speed is written.
pub open spec fn speed_text(speed: UsbSpeed) -> Seq<char> {
    match speed {
        UsbSpeed::Low => "1.5 Mbps"@,
        UsbSpeed::Full => "12 Mbps"@,
        UsbSpeed::High => "480 Mbps"@,
        UsbSpeed::Super => "5 Gbps"@,
        UsbSpeed::SuperPlus => "10 Gbps"@,
        UsbSpeed::Unknown => "unknown"@,
    }
}

/// How a speed is written.
pub fn speed_str(speed: &UsbSpeed) -> (s: &'static str)
    ensures
        s@ == speed_text(*speed),
{
    match speed {
        UsbSpeed::Low => "1.5 Mbps",
        UsbSpeed::Full => "12 Mbps",
        UsbSpeed::High => "480 Mbps",
        UsbSpeed::Super => "5 Gbps",
        UsbSpeed::SuperPlus => "10 Gbps",
        UsbSpeed::Unknown => "unknown",
    }
}

/// How a vendor and a product are written.
pub open spec fn vid_pid_text(vendor_id: u16, product_id: u16) -> Seq<char> {
    hex_digits(vendor_id as nat, 4) + ":"@ + hex_digits(product_id as nat, 4)
}

/// How a vendor and a product are written.
pub fn vid_pid(vendor_id: u16, product_id: u16) -> (s: String)
    ensures
        s@ == vid_pid_text(vendor_id, product_id),
{
    hex_string(vendor_id as u32, 4).concat(":").concat(hex_string(product_id as u32, 4).as_str())
}

/// A character, again and again.
pub open spec fn repeated(c: char, n: nat) -> Seq<char> {
    Seq::new(n, |i: int| c)
}

fn repeat(c: char, n: usize) -> (v: Vec<char>)
    ensures
        v@ == repeated(c, n as nat),
{
    let mut v: Vec<char> = Vec::new();
    let mut i: usize = 0;
    while i < n
        invariant
            i <= n,
            v@ =~= repeated(c, i as nat),
        decreases n - i,
    {
        v.push(c);
        i = i + 1;
    }
    v
}

/// A cell of a table: the text, with space behind it up to a width.
pub open spec fn cell(s: Seq<char>, width: nat) -> Seq<char> {
    if s.len() < width {
        s + repeated(' ', (width - s.len()) as nat)
    } else {
        s
    }
}

fn padded(s: &str, width: usize) -> (r: String)
    ensures
        r@ == cell(s@, width as nat),
{
    let n: usize = chars_of(s).len();
    if n < width {
        s.to_owned().concat(string_of(&repeat(' ', width - n)).as_str())
    } else {
        s.to_owned()
    }
}

/// A line of a table: its cells, with a space between them.
pub open spec fn row(cells: Seq<Seq<char>>, widths: Seq<usize>) -> Seq<char>
    decreases cells.len(),
{
    if cells.len() == 0 {
        Seq::empty()
    } else if cells.len() == 1 {
        cell(cells[0], widths[0] as nat)
    } else {
        row(cells.drop_last(), widths) + " "@ + cell(cells.last(), widths[cells.len() - 1] as nat)
    }
}

fn table_row(cells: &Vec<String>, widths: &Vec<usize>) -> (s: String)
    requires
        cells@.len() == widths@.len(),
        cells@.len() >= 1,
    ensures
        s@ == row(texts(cells@), widths@),
{
    let mut s = padded(cells[0].as_str(), widths[0]);
    let mut i: usize = 1;
    assert(texts(cells@).take(1) =~= seq![cells@[0]@]);
    while i < cells.len()
        invariant
            1 <= i <= cells@.len(),
            cells@.len() == widths@.len(),
            s@ == row(texts(cells@).take(i as int), widths@),
        decreases cells@.len() - i,
    {
        proof {
            assert(texts(cells@).take(i + 1).drop_last() =~= texts(cells@).take(i as int));
            assert(texts(cells@).take(i + 1).last() == cells@[i as int]@);
        }
        s = s.concat(" ").concat(padded(cells[i].as_str(), widths[i]).as_str());
        i = i + 1;
    }
    assert(texts(cells@).take(i as int) =~= texts(cells@));
    s
}

/// The lines of a table: the head, a line under it, and the rows.
pub open spec fn table_lines(
    head: Seq<Seq<char>>,
    widths: Seq<usize>,
    rule: nat,
    rows: Seq<Seq<Seq<char>>>,
) -> Seq<Seq<char>> {
    seq![row(head, widths), repeated('-', rule)] + Seq::new(
        rows.len(),
        |i: int| row(rows[i], widths),
    )
}

/// What rows of cells hold.
pub open spec fn cell_texts(rows: Seq<Vec<String>>) -> Seq<Seq<Seq<char>>> {
    Seq::new(rows.len(), |i: int| texts(rows[i]@))
}

fn table(head: &Vec<String>, widths: &Vec<usize>, rule: usize, rows: &Vec<Vec<String>>) -> (v: Vec<
    String,
>)
    requires
        head@.len() == widths@.len(),
        widths@.len() >= 1,
        forall|i: int| 0 <= i < rows@.len() ==> (#[trigger] rows@[i])@.len() == widths@.len(),
    ensures
        texts(v@) == table_lines(texts(head@), widths@, rule as nat, cell_texts(rows@)),
{
    let mut v: Vec<String> = Vec::new();
    v.push(table_row(head, widths));
    v.push(string_of(&repeat('-', rule)));
    let ghost all = table_lines(texts(head@), widths@, rule as nat, cell_texts(rows@));
    assert(texts(v@) =~= all.take(2));
    let mut i: usize = 0;
    while i < rows.len()
        invariant
            i <= rows@.len(),
            widths@.len() >= 1,
            forall|i: int| 0 <= i < rows@.len() ==> (#[trigger] rows@[i])@.len() == widths@.len(),
            all == table_lines(texts(head@), widths@, rule as nat, cell_texts(rows@)),
            texts(v@) == all.take(i + 2),
        decreases rows@.len() - i,
    {
        let ghost before = v@;
        let line = table_row(&rows[i], widths);
        v.push(line);
        assert(texts(v@) =~= texts(before).push(line@));
        assert(all[i + 2] == line@);
        assert(all.take(i + 3) =~= all.take(i + 2).push(all[i + 2]));
        i = i + 1;
    }
    assert(all.take(i + 2) =~= all);
    v
}

/// A text, or a dash where there is none.
pub open spec fn or_dash(s: Option<Seq<char>>) -> Seq<char> {
    match s {
        Some(t) => t,
        None => "-"@,
    }
}

fn text_or_dash(s: &Option<String>) -> (t: String)
    ensures
        t@ == or_dash(text_option(*s)),
{
    match s {
        Some(t) => t.clone(),
        None => "-".to_owned(),
    }
}

/// The head of the table of devices.
pub open spec fn device_head() -> Seq<Seq<char>> {
    seq!["BUS ID"@, "VID:PID"@, "MANUFACTURER"@, "PRODUCT"@, "SPEED"@, "BOUND"@]
}

/// The widths of the table of devices.
pub open spec fn device_widths() -> Seq<usize> {
    seq![12usize, 10usize, 20usize, 20usize, 10usize, 6usize]
}

/// The row of a device.
pub open spec fn device_cells(d: DeviceInfoModel) -> Seq<Seq<char>> {
    seq![
        d.bus_id,
        vid_pid_text(d.vendor_id, d.product_id),
        or_dash(d.manufacturer),
        or_dash(d.product),
        speed_text(d.speed),
        if d.is_bound {
            "yes"@
        } else {
            "no"@
        },
    ]
}

/// The lines that show devices to people.
pub open spec fn device_lines(devices: Seq<DeviceInfo>) -> Seq<Seq<char>> {
    if devices.len() == 0 {
        seq!["No devices found."@]
    } else {
        table_lines(
            device_head(),
            device_widths(),
            80,
            Seq::new(devices.len(), |i: int| device_cells(devices[i]@)),
        )
    }
}

fn one_line(s: &str) -> (v: Vec<String>)
    ensures
        texts(v@) == seq![s@],
{
    let mut v: Vec<String> = Vec::new();
    v.push(s.to_owned());
    assert(texts(v@) =~= seq![s@]);
    v
}

fn device_row(d: &DeviceInfo) -> (v: Vec<String>)
    ensures
        texts(v@) == device_cells(d@),
{
    let bound: String = if d.is_bound {
        "yes".to_owned()
    } else {
        "no".to_owned()
    };
    let v: Vec<String> = vec![
        d.bus_id.clone(),
        vid_pid(d.vendor_id, d.product_id),
        text_or_dash(&d.manufacturer),
        text_or_dash(&d.product),
        speed_str(&d.speed).to_owned(),
        bound,
    ];
    assert(texts(v@) =~= device_cells(d@));
    v
}

fn device_table(devices: &[DeviceInfo]) -> (v: Vec<String>)
    ensures
        texts(v@) == device_lines(devices@),
{
    if devices.len() == 0 {
        return one_line("No devices found.");
    }
    let head: Vec<String> = vec![
        "BUS ID".to_owned(),
        "VID:PID".to_owned(),
        "MANUFACTURER".to_owned(),
        "PRODUCT".to_owned(),
        "SPEED".to_owned(),
        "BOUND".to_owned(),
    ];
    assert(texts(head@) =~= device_head());
    let widths: Vec<usize> = vec![12, 10, 20, 20, 10, 6];
    assert(widths@ =~= device_widths());
    let mut rows: Vec<Vec<String>> = Vec::new();
    let mut i: usize = 0;
    let n: usize = devices.len();
    while i < n
        invariant
            i <= n == devices@.len(),
            rows@.len() == i,
            forall|k: int| 0 <= k < i ==> (#[trigger] rows@[k])@.len() == 6,
            forall|k: int|
                0 <= k < i ==> texts((#[trigger] rows@[k])@) == device_cells(devices@[k]@),
        decreases n - i,
    {
        let r = device_row(&devices[i]);
        assert(texts(r@).len() == r@.len());
        rows.push(r);
        i = i + 1;
    }
    assert(cell_texts(rows@) =~= Seq::new(devices@.len(), |k: int| device_cells(devices@[k]@)));
    table(&head, &widths, 80, &rows)
}

/// Show devices: a table, or the bus ID of each.
pub fn print_devices(devices: &[DeviceInfo], format: OutputFormat) -> (s: Shown)
    ensures
        match format {
            OutputFormat::Json => s == Shown::Itself,
            OutputFormat::Quiet => s matches Shown::Lines(v) && texts(v@) == Seq::new(
                devices@.len(),
                |i: int| devices@[i].bus_id@,
            ),
            OutputFormat::Human => s matches Shown::Lines(v) && texts(v@) == device_lines(devices@),
        },
{
    match format {
        OutputFormat::Json => Shown::Itself,
        OutputFormat::Quiet => {
            let mut v: Vec<String> = Vec::new();
            let mut i: usize = 0;
            let n: usize = devices.len();
            while i < n
                invariant
                    i <= n == devices@.len(),
                    texts(v@) =~= Seq::new(i as nat, |k: int| devices@[k].bus_id@),
                decreases n - i,
            {
                let ghost before = v@;
                v.push(devices[i].bus_id.clone());
                assert(texts(v@) =~= texts(before).push(devices@[i as int].bus_id@));
                i = i + 1;
            }
            Shown::Lines(v)
        },
        OutputFormat::Human => Shown::Lines(device_table(devices)),
    }
}

/// The head of the table of devices on offer.
pub open spec fn exported_head() -> Seq<Seq<char>> {
    seq!["BUS ID"@, "VID:PID"@, "MANUFACTURER"@, "PRODUCT"@, "SPEED"@, "CLIENTS"@]
}

/// The widths of the table of devices on offer.
pub open spec fn exported_widths() -> Seq<usize> {
    seq![12usize, 10usize, 20usize, 20usize, 10usize, 8usize]
}

/// The row of a device on offer.
pub open spec fn exported_cells(d: ExportedInfoModel) -> Seq<Seq<char>> {
    seq![
        d.bus_id,
        vid_pid_text(d.vendor_id, d.product_id),
        or_dash(d.manufacturer),
        or_dash(d.product),
        speed_text(d.speed),
        decimal(d.num_clients as nat),
    ]
}

/// The lines that show devices on offer to people.
pub open spec fn exported_lines(devices: Seq<ExportedDeviceInfo>) -> Seq<Seq<char>> {
    if devices.len() == 0 {
        seq!["No exported devices."@]
    } else {
        table_lines(
            exported_head(),
            exported_widths(),
            82,
            Seq::new(devices.len(), |i: int| exported_cells(devices[i]@)),
        )
    }
}

fn exported_row(d: &ExportedDeviceInfo) -> (v: Vec<String>)
    ensures
        texts(v@) == exported_cells(d@),
{
    let v: Vec<String> = vec![
        d.bus_id.clone(),
        vid_pid(d.vendor_id, d.product_id),
        text_or_dash(&d.manufacturer),
        text_or_dash(&d.product),
        speed_str(&d.speed).to_owned(),
        decimal_string(d.num_clients as u64),
    ];
    assert(texts(v@) =~= exported_cells(d@));
    v
}

fn exported_table(devices: &[ExportedDeviceInfo]) -> (v: Vec<String>)
    ensures
        texts(v@) == exported_lines(devices@),
{
    if devices.len() == 0 {
        return one_line("No exported devices.");
    }
    let head: Vec<String> = vec![
        "BUS ID".to_owned(),
        "VID:PID".to_owned(),
        "MANUFACTURER".to_owned(),
        "PRODUCT".to_owned(),
        "SPEED".to_owned(),
        "CLIENTS".to_owned(),
    ];
    assert(texts(head@) =~= exported_head());
    let widths: Vec<usize> = vec![12, 10, 20, 20, 10, 8];
    assert(widths@ =~= exported_widths());
    let mut rows: Vec<Vec<String>> = Vec::new();
    let mut i: usize = 0;
    let n: usize = devices.len();
    while i < n
        invariant
            i <= n == devices@.len(),
            rows@.len() == i,
            forall|k: int| 0 <= k < i ==> (#[trigger] rows@[k])@.len() == 6,
            forall|k: int|
                0 <= k < i ==> texts((#[trigger] rows@[k])@) == exported_cells(devices@[k]@),
        decreases n - i,
    {
        let r = exported_row(&devices[i]);
        assert(texts(r@).len() == r@.len());
        rows.push(r);
        i = i + 1;
    }
    assert(cell_texts(rows@) =~= Seq::new(devices@.len(), |k: int| exported_cells(devices@[k]@)));
    table(&head, &widths, 82, &rows)
}

/// Show devices on offer: a table, or the bus ID of each.
pub fn print_exported_devices(devices: &[ExportedDeviceInfo], format: OutputFormat) -> (s: Shown)
    ensures
        match format {
            OutputFormat::Json => s == Shown::Itself,
            OutputFormat::Quiet => s matches Shown::Lines(v) && texts(v@) == Seq::new(
                devices@.len(),
                |i: int| devices@[i].bus_id@,
            ),
            OutputFormat::Human => s matches Shown::Lines(v) && texts(v@) == exported_lines(
                devices@,
            ),
        },
{
    match format {
        OutputFormat::Json => Shown::Itself,
        OutputFormat::Quiet => {
            let mut v: Vec<String> = Vec::new();
            let mut i: usize = 0;
            let n: usize = devices.len();
            while i < n
                invariant
                    i <= n == devices@.len(),
                    texts(v@) =~= Seq::new(i as nat, |k: int| devices@[k].bus_id@),
                decreases n - i,
            {
                let ghost before = v@;
                v.push(devices[i].bus_id.clone());
                assert(texts(v@) =~= texts(before).push(devices@[i as int].bus_id@));
                i = i + 1;
            }
            Shown::Lines(v)
        },
        OutputFormat::Human => Shown::Lines(exported_table(devices)),
    }
}

/// The head of the table of imported devices.
pub open spec fn imported_head() -> Seq<Seq<char>> {
    seq!["PORT"@, "HOST"@, "REMOTE BUS"@, "VID:PID"@, "SPEED"@]
}

/// The widths of the table of imported devices.
pub open spec fn imported_widths() -> Seq<usize> {
    seq![6usize, 20usize, 12usize, 10usize, 10usize]
}

/// The row of an imported device.
pub open spec fn imported_cells(d: ImportedDeviceInfo) -> Seq<Seq<char>> {
    seq![
        decimal(d.port as nat),
        d.host@,
        d.remote_bus_id@,
        vid_pid_text(d.vendor_id, d.product_id),
        speed_text(d.speed),
    ]
}

/// The lines that show imported devices to people.
pub open spec fn imported_lines(devices: Seq<ImportedDeviceInfo>) -> Seq<Seq<char>> {
    if devices.len() == 0 {
        seq!["No imported devices."@]
    } else {
        table_lines(
            imported_head(),
            imported_widths(),
            60,
            Seq::new(devices.len(), |i: int| imported_cells(devices[i])),
        )
    }
}

fn imported_row(d: &ImportedDeviceInfo) -> (v: Vec<String>)
    ensures
        texts(v@) == imported_cells(*d),
{
    let v: Vec<String> = vec![
        decimal_string(d.port as u64),
        d.host.clone(),
        d.remote_bus_id.clone(),
        vid_pid(d.vendor_id, d.product_id),
        speed_str(&d.speed).to_owned(),
    ];
    assert(texts(v@) =~= imported_cells(*d));
    v
}

fn imported_table(devices: &[ImportedDeviceInfo]) -> (v: Vec<String>)
    ensures
        texts(v@) == imported_lines(devices@),
{
    if devices.len() == 0 {
        return one_line("No imported devices.");
    }
    let head: Vec<String> = vec![
        "PORT".to_owned(),
        "HOST".to_owned(),
        "REMOTE BUS".to_owned(),
        "VID:PID".to_owned(),
        "SPEED".to_owned(),
    ];
    assert(texts(head@) =~= imported_head());
    let widths: Vec<usize> = vec![6, 20, 12, 10, 10];
    assert(widths@ =~= imported_widths());
    let mut rows: Vec<Vec<String>> = Vec::new();
    let mut i: usize = 0;
    let n: usize = devices.len();
    while i < n
        invariant
            i <= n == devices@.len(),
            rows@.len() == i,
            forall|k: int| 0 <= k < i ==> (#[trigger] rows@[k])@.len() == 5,
            forall|k: int|
                0 <= k < i ==> texts((#[trigger] rows@[k])@) == imported_cells(devices@[k]),
        decreases n - i,
    {
        let r = imported_row(&devices[i]);
        assert(texts(r@).len() == r@.len());
        rows.push(r);
        i = i + 1;
    }
    assert(cell_texts(rows@) =~= Seq::new(devices@.len(), |k: int| imported_cells(devices@[k])));
    table(&head, &widths, 60, &rows)
}

/// Show imported devices: a table, or the port of each.
pub fn print_imported_devices(devices: &[ImportedDeviceInfo], format: OutputFormat) -> (s: Shown)
    ensures
        match format {
            OutputFormat::Json => s == Shown::Itself,
            OutputFormat::Quiet => s matches Shown::Lines(v) && texts(v@) == Seq::new(
                devices@.len(),
                |i: int| decimal(devices@[i].port as nat),
            ),
            OutputFormat::Human => s matches Shown::Lines(v) && texts(v@) == imported_lines(
                devices@,
            ),
        },
{
    match format {
        OutputFormat::Json => Shown::Itself,
        OutputFormat::Quiet => {
            let mut v: Vec<String> = Vec::new();
            let mut i: usize = 0;
            let n: usize = devices.len();
            while i < n
                invariant
                    i <= n == devices@.len(),
                    texts(v@) =~= Seq::new(i as nat, |k: int| decimal(devices@[k].port as nat)),
                decreases n - i,
            {
                let ghost before = v@;
                v.push(decimal_string(devices[i].port as u64));
                assert(texts(v@) =~= texts(before).push(decimal(devices@[i as int].port as nat)));
                i = i + 1;
            }
            Shown::Lines(v)
        },
        OutputFormat::Human => Shown::Lines(imported_table(devices)),
    }
}

/// The lines that show the state of the daemon to people, before the devices.
pub open spec fn status_lines(status: DaemonStatus) -> Seq<Seq<char>> {
    seq![
        "Daemon Status"@,
        repeated('=', 40),
        "Version:            "@ + status.version@,
        "Uptime:             "@ + decimal(status.uptime_secs as nat) + "s"@,
        "Exported devices:   "@ + decimal(status.exported_devices as nat),
        "Imported devices:   "@ + decimal(status.imported_devices as nat),
        "Active connections: "@ + decimal(status.active_connections as nat),
        Seq::empty(),
    ]
}

/// All the lines that show the state of the daemon to people.
pub open spec fn overview_lines(
    status: DaemonStatus,
    exported: Seq<ExportedDeviceInfo>,
    imported: Seq<ImportedDeviceInfo>,
) -> Seq<Seq<char>> {
    status_lines(status) + seq!["Exported Devices"@, repeated('-', 40)] + exported_lines(exported)
        + seq![Seq::empty(), "Imported Devices"@, repeated('-', 40)] + imported_lines(imported)
}

fn push_all(v: &mut Vec<String>, more: Vec<String>)
    ensures
        texts(final(v)@) == texts(old(v)@) + texts(more@),
{
    let mut i: usize = 0;
    while i < more.len()
        invariant
            i <= more@.len(),
            texts(v@) =~= texts(old(v)@) + texts(more@).take(i as int),
        decreases more@.len() - i,
    {
        let ghost before = v@;
        v.push(more[i].clone());
        assert(texts(v@) =~= texts(before).push(more@[i as int]@));
        assert(texts(more@).take(i + 1) =~= texts(more@).take(i as int).push(more@[i as int]@));
        i = i + 1;
    }
    assert(texts(more@).take(i as int) =~= texts(more@));
}

fn status_head(status: &DaemonStatus) -> (v: Vec<String>)
    ensures
        texts(v@) == status_lines(*status),
{
    let v: Vec<String> = vec![
        "Daemon Status".to_owned(),
        string_of(&repeat('=', 40)),
        "Version:            ".to_owned().concat(status.version.as_str()),
        "Uptime:             ".to_owned().concat(decimal_string(status.uptime_secs).as_str())
            .concat("s"),
        "Exported devices:   ".to_owned().concat(
            decimal_string(status.exported_devices as u64).as_str(),
        ),
        "Imported devices:   ".to_owned().concat(
            decimal_string(status.imported_devices as u64).as_str(),
        ),
        "Active connections: ".to_owned().concat(
            decimal_string(status.active_connections as u64).as_str(),
        ),
        String::new(),
    ];
    assert(texts(v@) =~= status_lines(*status));
    v
}

/// Show the state of the daemon, and its devices.
pub fn print_status(
    status: &DaemonStatus,
    exported: &[ExportedDeviceInfo],
    imported: &[ImportedDeviceInfo],
    format: OutputFormat,
) -> (s: Shown)
    ensures
        match format {
            OutputFormat::Json => s == Shown::Itself,
            OutputFormat::Quiet => s matches Shown::Lines(v) && texts(v@) == seq![
                "exported="@ + decimal(status.exported_devices as nat) + " imported="@ + decimal(
                    status.imported_devices as nat,
                ) + " connections="@ + decimal(status.active_connections as nat),
            ],
            OutputFormat::Human => s matches Shown::Lines(v) && texts(v@) == overview_lines(
                *status,
                exported@,
                imported@,
            ),
        },
{
    match format {
        OutputFormat::Json => Shown::Itself,
        OutputFormat::Quiet => Shown::Lines(
            one_line(
                "exported=".to_owned().concat(
                    decimal_string(status.exported_devices as u64).as_str(),
                ).concat(" imported=").concat(
                    decimal_string(status.imported_devices as u64).as_str(),
                ).concat(" connections=").concat(
                    decimal_string(status.active_connections as u64).as_str(),
                ).as_str(),
            ),
        ),
        OutputFormat::Human => {
            let mut v = status_head(status);
            let a: Vec<String> = vec!["Exported Devices".to_owned(), string_of(&repeat('-', 40))];
            assert(texts(a@) =~= seq!["Exported Devices"@, repeated('-', 40)]);
            push_all(&mut v, a);
            push_all(&mut v, exported_table(exported));
            let b: Vec<String> = vec![
                String::new(),
                "Imported Devices".to_owned(),
                string_of(&repeat('-', 40)),
            ];
            assert(texts(b@) =~= seq![Seq::empty(), "Imported Devices"@, repeated('-', 40)]);
            push_all(&mut v, b);
            push_all(&mut v, imported_table(imported));
            Shown::Lines(v)
        },
    }
}

/// Show that something was done.
pub fn print_ok(msg: &str, format: OutputFormat) -> (s: Shown)
    ensures
        match format {
            OutputFormat::Json => s matches Shown::Value(Json::Object(ms)) && ms@.len() == 2
                && ms@[0].0@ == "status"@ && is_text(ms@[0].1, "ok"@) && ms@[1].0@ == "message"@
                && is_text(ms@[1].1, msg@),
            OutputFormat::Quiet => s matches Shown::Lines(v) && v@.len() == 0,
            OutputFormat::Human => s matches Shown::Lines(v) && texts(v@) == seq![msg@],
        },
{
    match format {
        OutputFormat::Json => {
            let mut ms: Vec<(String, Json)> = Vec::new();
            ms.push(("status".to_owned(), Json::Str("ok".to_owned())));
            ms.push(("message".to_owned(), Json::Str(msg.to_owned())));
            Shown::Value(Json::Object(ms))
        },
        OutputFormat::Quiet => Shown::Lines(Vec::new()),
        OutputFormat::Human => Shown::Lines(one_line(msg)),
    }
}

/// The head of the table of servers.
pub open spec fn server_head() -> Seq<Seq<char>> {
    seq!["HOSTNAME"@, "ADDRESS"@, "PORT"@, "VERSION"@, "DEVICES"@]
}

/// The widths of the table of servers.
pub open spec fn server_widths() -> Seq<usize> {
    seq![30usize, 20usize, 6usize, 10usize, 8usize]
}

/// The row of a server.
pub open spec fn server_cells(s: ServerModel) -> Seq<Seq<char>> {
    seq![
        s.hostname,
        s.addr.ip@,
        decimal(s.addr.port as nat),
        s.version,
        decimal(s.device_count as nat),
    ]
}

/// The lines that show servers to people.
pub open spec fn server_lines(servers: Seq<DiscoveredServer>) -> Seq<Seq<char>> {
    if servers.len() == 0 {
        seq!["No Extender servers found."@]
    } else {
        table_lines(
            server_head(),
            server_widths(),
            76,
            Seq::new(servers.len(), |i: int| server_cells(servers[i]@)),
        )
    }
}

/// A JSON value tells of a server.
pub open spec fn is_server_object(j: Json, s: ServerModel) -> bool {
    j matches Json::Object(ms) && ms@.len() == 5 && ms@[0].0@ == "hostname"@ && is_text(
        ms@[0].1,
        s.hostname,
    ) && ms@[1].0@ == "address"@ && is_text(ms@[1].1, s.addr.ip@) && ms@[2].0@ == "port"@
        && ms@[2].1 == Json::Unsigned(s.addr.port as u64) && ms@[3].0@ == "version"@ && is_text(
        ms@[3].1,
        s.version,
    ) && ms@[4].0@ == "device_count"@ && ms@[4].1 == Json::Unsigned(s.device_count as u64)
}

fn server_row(s: &DiscoveredServer) -> (v: Vec<String>)
    ensures
        texts(v@) == server_cells(s@),
{
    let v: Vec<String> = vec![
        s.hostname.clone(),
        s.addr.ip.clone(),
        decimal_string(s.addr.port as u64),
        s.version.clone(),
        decimal_string(s.device_count as u64),
    ];
    assert(texts(v@) =~= server_cells(s@));
    v
}

fn server_table(servers: &[DiscoveredServer]) -> (v: Vec<String>)
    ensures
        texts(v@) == server_lines(servers@),
{
    if servers.len() == 0 {
        return one_line("No Extender servers found.");
    }
    let head: Vec<String> = vec![
        "HOSTNAME".to_owned(),
        "ADDRESS".to_owned(),
        "PORT".to_owned(),
        "VERSION".to_owned(),
        "DEVICES".to_owned(),
    ];
    assert(texts(head@) =~= server_head());
    let widths: Vec<usize> = vec![30, 20, 6, 10, 8];
    assert(widths@ =~= server_widths());
    let mut rows: Vec<Vec<String>> = Vec::new();
    let mut i: usize = 0;
    let n: usize = servers.len();
    while i < n
        invariant
            i <= n == servers@.len(),
            rows@.len() == i,
            forall|k: int| 0 <= k < i ==> (#[trigger] rows@[k])@.len() == 5,
            forall|k: int|
                0 <= k < i ==> texts((#[trigger] rows@[k])@) == server_cells(servers@[k]@),
        decreases n - i,
    {
        let r = server_row(&servers[i]);
        assert(texts(r@).len() == r@.len());
        rows.push(r);
        i = i + 1;
    }
    assert(cell_texts(rows@) =~= Seq::new(servers@.len(), |k: int| server_cells(servers@[k]@)));
    table(&head, &widths, 76, &rows)
}

fn server_object(s: &DiscoveredServer) -> (j: Json)
    ensures
        is_server_object(j, s@),
{
    let mut ms: Vec<(String, Json)> = Vec::new();
    ms.push(("hostname".to_owned(), Json::Str(s.hostname.clone())));
    ms.push(("address".to_owned(), Json::Str(s.addr.ip.clone())));
    ms.push(("port".to_owned(), Json::Unsigned(s.addr.port as u64)));
    ms.push(("version".to_owned(), Json::Str(s.version.clone())));
    ms.push(("device_count".to_owned(), Json::Unsigned(s.device_count as u64)));
    Json::Object(ms)
}

/// Show servers: a table, the address and port of each, or a list of objects.
pub fn print_servers(servers: &[DiscoveredServer], format: OutputFormat) -> (s: Shown)
    ensures
        match format {
            OutputFormat::Json => s matches Shown::Value(Json::Array(a)) && a@.len()
                == servers@.len() && forall|i: int|
                0 <= i < servers@.len() ==> is_server_object(#[trigger] a@[i], servers@[i]@),
            OutputFormat::Quiet => s matches Shown::Lines(v) && texts(v@) == Seq::new(
                servers@.len(),
                |i: int| servers@[i].addr.ip@ + ":"@ + decimal(servers@[i].addr.port as nat),
            ),
            OutputFormat::Human => s matches Shown::Lines(v) && texts(v@) == server_lines(servers@),
        },
{
    match format {
        OutputFormat::Json => {
            let mut a: Vec<Json> = Vec::new();
            let mut i: usize = 0;
            let n: usize = servers.len();
            while i < n
                invariant
                    i <= n == servers@.len(),
                    a@.len() == i,
                    forall|k: int| 0 <= k < i ==> is_server_object(#[trigger] a@[k], servers@[k]@),
                decreases n - i,
            {
                a.push(server_object(&servers[i]));
                i = i + 1;
            }
            Shown::Value(Json::Array(a))
        },
        OutputFormat::Quiet => {
            let mut v: Vec<String> = Vec::new();
            let mut i: usize = 0;
            let n: usize = servers.len();
            while i < n
                invariant
                    i <= n == servers@.len(),
                    texts(v@) =~= Seq::new(
                        i as nat,
                        |k: int| servers@[k].addr.ip@ + ":"@ + decimal(servers@[k].addr.port as nat),
                    ),
                decreases n - i,
            {
                let ghost before = v@;
                let line = servers[i].addr.ip.clone().concat(":").concat(
                    decimal_string(servers[i].addr.port as u64).as_str(),
                );
                v.push(line);
                assert(texts(v@) =~= texts(before).push(line@));
                i = i + 1;
            }
            Shown::Lines(v)
        },
        OutputFormat::Human => Shown::Lines(server_table(servers)),
    }
}

proof fn lemma_row(cells: Seq<Seq<char>>, widths: Seq<usize>, more: Seq<char>)
    requires
        cells.len() > 0,
    ensures
        row(cells.push(more), widths) == row(cells, widths) + " "@ + cell(
            more,
            widths[cells.len() as int] as nat,
        ),
{
    assert(cells.push(more).drop_last() =~= cells);
}

/// The table of devices has a line for each device under its head: the bus ID,
/// vendor and product, the names, the speed and whether it is bound, each in its
/// own column.
pub proof fn law_device_line(devices: &[DeviceInfo], s: Shown, i: int, speed: &'static str)
    requires
        call_ensures(print_devices, (devices, OutputFormat::Human), s),
        0 <= i < devices@.len(),
        call_ensures(speed_str, (&devices@[i].speed,), speed),
    ensures
        s matches Shown::Lines(v) && v@.len() == devices@.len() + 2 && ({
            let d = devices@[i];
            let maker = match d.manufacturer {
                Some(m) => m@,
                None => "-"@,
            };
            let name = match d.product {
                Some(m) => m@,
                None => "-"@,
            };
            let ids = hex_digits(d.vendor_id as nat, 4) + ":"@ + hex_digits(
                d.product_id as nat,
                4,
            );
            v@[i + 2]@ == cell(d.bus_id@, 12) + " "@ + cell(ids, 10) + " "@ + cell(maker, 20) + " "@
                + cell(name, 20) + " "@ + cell(speed@, 10) + " "@ + cell(
                if d.is_bound {
                    "yes"@
                } else {
                    "no"@
                },
                6,
            )
        }),
{
    if let Shown::Lines(v) = s {
        let all = device_lines(devices@);
        let w = device_widths();
        let c = device_cells(devices@[i]@);
        assert(all.len() == devices@.len() + 2);
        assert(texts(v@).len() == v@.len());
        assert(texts(v@)[i + 2] == v@[i + 2]@);
        assert(all[i + 2] == row(c, w));
        lemma_row(c.take(1), w, c[1]);
        lemma_row(c.take(2), w, c[2]);
        lemma_row(c.take(3), w, c[3]);
        lemma_row(c.take(4), w, c[4]);
        lemma_row(c.take(5), w, c[5]);
        assert(c.take(1) =~= seq![c[0]]);
        assert(c.take(1).push(c[1]) =~= c.take(2));
        assert(c.take(2).push(c[2]) =~= c.take(3));
        assert(c.take(3).push(c[3]) =~= c.take(4));
        assert(c.take(4).push(c[4]) =~= c.take(5));
        assert(c.take(5).push(c[5]) =~= c);
    }
}

/// A cell is as wide as its column or as its text, and begins with the text.
pub proof fn law_cell(s: Seq<char>, width: nat)
    ensures
        cell(s, width).len() == if s.len() < width {
            width
        } else {
            s.len()
        },
        cell(s, width).take(s.len() as int) == s,
        forall|i: int| s.len() <= i < cell(s, width).len() ==> #[trigger] cell(s, width)[i] == ' ',
{
    assert(cell(s, width).take(s.len() as int) =~= s);
}

/// For programs a device is its bus ID, and an imported one its port.
pub proof fn law_bare_names(
    devices: &[DeviceInfo],
    exported: &[ExportedDeviceInfo],
    imported: &[ImportedDeviceInfo],
    a: Shown,
    b: Shown,
    c: Shown,
)
    requires
        call_ensures(print_devices, (devices, OutputFormat::Quiet), a),
        call_ensures(print_exported_devices, (exported, OutputFormat::Quiet), b),
        call_ensures(print_imported_devices, (imported, OutputFormat::Quiet), c),
    ensures
        a matches Shown::Lines(v) && v@.len() == devices@.len() && (forall|i: int|
            0 <= i < v@.len() ==> (#[trigger] v@[i])@ == devices@[i].bus_id@),
        b matches Shown::Lines(v) && v@.len() == exported@.len() && (forall|i: int|
            0 <= i < v@.len() ==> (#[trigger] v@[i])@ == exported@[i].bus_id@),
        c matches Shown::Lines(v) && v@.len() == imported@.len() && (forall|i: int|
            0 <= i < v@.len() ==> (#[trigger] v@[i])@ == decimal(imported@[i].port as nat)),
{
    if let Shown::Lines(v) = a {
        assert(texts(v@).len() == v@.len());
        assert forall|i: int| 0 <= i < v@.len() implies (#[trigger] v@[i])@
            == devices@[i].bus_id@ by {
            assert(texts(v@)[i] == v@[i]@);
        }
    }
    if let Shown::Lines(v) = b {
        assert(texts(v@).len() == v@.len());
        assert forall|i: int| 0 <= i < v@.len() implies (#[trigger] v@[i])@
            == exported@[i].bus_id@ by {
            assert(texts(v@)[i] == v@[i]@);
        }
    }
    if let Shown::Lines(v) = c {
        assert(texts(v@).len() == v@.len());
        assert forall|i: int| 0 <= i < v@.len() implies (#[trigger] v@[i])@ == decimal(
            imported@[i].port as nat,
        ) by {
            assert(texts(v@)[i] == v@[i]@);
        }
    }
}

/// The table of imported devices has a line for each under its head: the port,
/// the server, the bus ID there, vendor and product, and the speed.
pub proof fn law_imported_line(
    devices: &[ImportedDeviceInfo],
    s: Shown,
    i: int,
    speed: &'static str,
)
    requires
        call_ensures(print_imported_devices, (devices, OutputFormat::Human), s),
        0 <= i < devices@.len(),
        call_ensures(speed_str, (&devices@[i].speed,), speed),
    ensures
        s matches Shown::Lines(v) && v@.len() == devices@.len() + 2 && ({
            let d = devices@[i];
            let ids = hex_digits(d.vendor_id as nat, 4) + ":"@ + hex_digits(
                d.product_id as nat,
                4,
            );
            v@[i + 2]@ == cell(decimal(d.port as nat), 6) + " "@ + cell(d.host@, 20) + " "@ + cell(
                d.remote_bus_id@,
                12,
            ) + " "@ + cell(ids, 10) + " "@ + cell(speed@, 10)
        }),
{
    if let Shown::Lines(v) = s {
        let all = imported_lines(devices@);
        let w = imported_widths();
        let c = imported_cells(devices@[i]);
        assert(all.len() == devices@.len() + 2);
        assert(texts(v@).len() == v@.len());
        assert(texts(v@)[i + 2] == v@[i + 2]@);
        assert(all[i + 2] == row(c, w));
        lemma_row(c.take(1), w, c[1]);
        lemma_row(c.take(2), w, c[2]);
        lemma_row(c.take(3), w, c[3]);
        lemma_row(c.take(4), w, c[4]);
        assert(c.take(1) =~= seq![c[0]]);
        assert(c.take(1).push(c[1]) =~= c.take(2));
        assert(c.take(2).push(c[2]) =~= c.take(3));
        assert(c.take(3).push(c[3]) =~= c.take(4));
        assert(c.take(4).push(c[4]) =~= c);
    }
}

/// The speeds are written as what they are.
pub proof fn law_speed_written(speed: UsbSpeed, s: &'static str)
    requires
        call_ensures(speed_str, (&speed,), s),
    ensures
        speed == UsbSpeed::Low ==> s@ == "1.5 Mbps"@,
        speed == UsbSpeed::Full ==> s@ == "12 Mbps"@,
        speed == UsbSpeed::High ==> s@ == "480 Mbps"@,
        speed == UsbSpeed::Super ==> s@ == "5 Gbps"@,
        speed == UsbSpeed::SuperPlus ==> s@ == "10 Gbps"@,
        speed == UsbSpeed::Unknown ==> s@ == "unknown"@,
{
}

/// A vendor and a product are written as four hexadecimal digits each, the
/// vendor first.
pub proof fn law_ids_written(vendor_id: u16, product_id: u16, s: String)
    requires
        call_ensures(vid_pid, (vendor_id, product_id), s),
    ensures
        s@.len() == 9,
        s@[4] == ':',
        s@.take(4) == hex_digits(vendor_id as nat, 4),
        s@.skip(5) == hex_digits(product_id as nat, 4),
{
    reveal_strlit(":");
    reveal_with_fuel(hex_digits, 5);
    assert(s@.take(4) =~= hex_digits(vendor_id as nat, 4));
    assert(s@.skip(5) =~= hex_digits(product_id as nat, 4));
}

/// The short form of the state counts the devices on offer, the imported ones
/// and the connections, in this order.
pub proof fn law_short_status(
    status: DaemonStatus,
    exported: &[ExportedDeviceInfo],
    imported: &[ImportedDeviceInfo],
    s: Shown,
)
    requires
        call_ensures(print_status, (&status, exported, imported, OutputFormat::Quiet), s),
    ensures
        s matches Shown::Lines(v) && v@.len() == 1 && v@[0]@ == "exported="@ + decimal(
            status.exported_devices as nat,
        ) + " imported="@ + decimal(status.imported_devices as nat) + " connections="@ + decimal(
            status.active_connections as nat,
        ),
{
    if let Shown::Lines(v) = s {
        assert(texts(v@).len() == v@.len());
        assert(texts(v@)[0] == v@[0]@);
    }
}

/// The servers that were found are shown to programs as their addresses with
/// their ports, and as JSON with each field under its own name.
pub proof fn law_servers_shown(servers: &[DiscoveredServer], q: Shown, j: Shown, i: int)
    requires
        call_ensures(print_servers, (servers, OutputFormat::Quiet), q),
        call_ensures(print_servers, (servers, OutputFormat::Json), j),
        0 <= i < servers@.len(),
    ensures
        q matches Shown::Lines(v) && v@.len() == servers@.len() && v@[i]@ == servers@[i].addr.ip@
            + ":"@ + decimal(servers@[i].addr.port as nat),
        j matches Shown::Value(Json::Array(a)) && a@.len() == servers@.len() && (
        a@[i] matches Json::Object(ms) && ms@.len() == 5 && ms@[0].0@ == "hostname"@ && (
        ms@[0].1 matches Json::Str(t) && t@ == servers@[i].hostname@) && ms@[1].0@ == "address"@ && (
        ms@[1].1 matches Json::Str(t) && t@ == servers@[i].addr.ip@) && ms@[2].0@ == "port"@
            && ms@[2].1 == Json::Unsigned(servers@[i].addr.port as u64) && ms@[3].0@ == "version"@
            && (ms@[3].1 matches Json::Str(t) && t@ == servers@[i].version@) && ms@[4].0@
            == "device_count"@ && ms@[4].1 == Json::Unsigned(servers@[i].device_count as u64)),
{
    if let Shown::Lines(v) = q {
        assert(texts(v@).len() == v@.len());
        assert(texts(v@)[i] == v@[i]@);
    }
    if let Shown::Value(Json::Array(a)) = j {
        assert(is_server_object(a@[i], servers@[i]@));
    }
}

/// The table of devices on offer has a line for each under its head: the bus ID,
/// vendor and product, the names, the speed and the number of clients.
pub proof fn law_exported_line(
    devices: &[ExportedDeviceInfo],
    s: Shown,
    i: int,
    speed: &'static str,
)
    requires
        call_ensures(print_exported_devices, (devices, OutputFormat::Human), s),
        0 <= i < devices@.len(),
        call_ensures(speed_str, (&devices@[i].speed,), speed),
    ensures
        s matches Shown::Lines(v) && v@.len() == devices@.len() + 2 && ({
            let d = devices@[i];
            let maker = match d.manufacturer {
                Some(m) => m@,
                None => "-"@,
            };
            let name = match d.product {
                Some(m) => m@,
                None => "-"@,
            };
            let ids = hex_digits(d.vendor_id as nat, 4) + ":"@ + hex_digits(
                d.product_id as nat,
                4,
            );
            v@[i + 2]@ == cell(d.bus_id@, 12) + " "@ + cell(ids, 10) + " "@ + cell(maker, 20) + " "@
                + cell(name, 20) + " "@ + cell(speed@, 10) + " "@ + cell(
                decimal(d.num_clients as nat),
                8,
            )
        }),
{
    if let Shown::Lines(v) = s {
        let all = exported_lines(devices@);
        let w = exported_widths();
        let c = exported_cells(devices@[i]@);
        assert(all.len() == devices@.len() + 2);
        assert(texts(v@).len() == v@.len());
        assert(texts(v@)[i + 2] == v@[i + 2]@);
        assert(all[i + 2] == row(c, w));
        lemma_row(c.take(1), w, c[1]);
        lemma_row(c.take(2), w, c[2]);
        lemma_row(c.take(3), w, c[3]);
        lemma_row(c.take(4), w, c[4]);
        lemma_row(c.take(5), w, c[5]);
        assert(c.take(1) =~= seq![c[0]]);
        assert(c.take(1).push(c[1]) =~= c.take(2));
        assert(c.take(2).push(c[2]) =~= c.take(3));
        assert(c.take(3).push(c[3]) =~= c.take(4));
        assert(c.take(4).push(c[4]) =~= c.take(5));
        assert(c.take(5).push(c[5]) =~= c);
    }
}

} // verus!
