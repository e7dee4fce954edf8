//! The commands of the command line, and what each of them does.

use vstd::prelude::*;
use vstd::string::*;

use crate::api::methods::{ApiMethod, ApiMethodModel};
use crate::cli::output::OutputFormat;
use crate::daemon::config::{default_daemon, Config, DaemonConfig, ServerConfig};
use crate::scan::same;
use crate::text::{chars_of, decimal, decimal_string, text_option};

verus! {

/// The port of a server where none is named.
pub const DEFAULT_PORT: u16 = 3240;

/// How many seconds servers are looked for where nothing is said.
pub const DEFAULT_TIMEOUT_SECS: u64 = 3;

/// What is said to a user whose server can be reached from other hosts.
pub const LISTEN_WARNING: &'static str =
    "WARNING: USB/IP server listening on non-localhost address. Traffic is unencrypted. Use a VPN or SSH tunnel for security.";

/// The command line.
#[derive(Debug)]
pub struct Cli {
    /// Where the daemon is reached.
    pub socket: String,
    pub format: OutputFormat,
    pub command: Command,
}

/// A command.
#[allow(inconsistent_fields)]
#[derive(Debug)]
pub enum Command {
    /// List devices, of this host or of another.
    List {
        local: bool,
        remote: Option<String>,
        port: Option<u16>,
        tls: bool,
        tls_ca: Option<String>,
    },
    /// Offer a device.
    Bind { busid: String },
    /// Stop offering a device.
    Unbind { busid: String },
    /// Import a device.
    Attach { remote: String, busid: String, port: Option<u16> },
    /// Give an imported device back.
    Detach { port: u32 },
    /// Look for servers.
    Discover { timeout: Option<u64> },
    /// Show the state of the daemon.
    Status,
    /// Run the daemon.
    Daemon {
        port: Option<u16>,
        listen: Option<String>,
        api_socket: Option<String>,
        config: Option<String>,
        log_level: Option<String>,
        tls_cert: Option<String>,
        tls_key: Option<String>,
    },
    /// Make certificates.
    TlsGen { output: Option<String> },
    /// Show the version.
    Version,
}

/// Where the daemon is reached where nothing is said.
pub fn default_socket_path(root: bool, runtime_dir: &Option<String>) -> (s: String)
    ensures
        s@ == default_daemon(root, text_option(*runtime_dir)).socket_path,
{
    DaemonConfig::default_for(root, runtime_dir).socket_path
}

/// A port, or that of a server where none is named.
pub open spec fn port_or_default(port: Option<u16>) -> u16 {
    match port {
        Some(p) => p,
        None => DEFAULT_PORT,
    }
}

/// A port, or that of a server where none is named.
pub fn server_port(port: Option<u16>) -> (p: u16)
    ensures
        p == port_or_default(port),
{
    match port {
        Some(p) => p,
        None => DEFAULT_PORT,
    }
}

/// What a command asks of the daemon at first, if it asks anything.
pub open spec fn asked_of_daemon(c: Command) -> Option<ApiMethodModel> {
    match c {
        Command::List { local, remote: None, port, tls, tls_ca } => Some(
            ApiMethodModel::ListLocalDevices,
        ),
        Command::Bind { busid } => Some(ApiMethodModel::BindDevice { bus_id: busid@ }),
        Command::Unbind { busid } => Some(ApiMethodModel::UnbindDevice { bus_id: busid@ }),
        Command::Attach { remote, busid, port } => Some(
            ApiMethodModel::AttachDevice {
                host: remote@,
                remote_port: port_or_default(port),
                bus_id: busid@,
            },
        ),
        Command::Detach { port } => Some(ApiMethodModel::DetachDevice { port }),
        Command::Status => Some(ApiMethodModel::GetStatus),
        _ => None,
    }
}

/// What is said when a command is done.
pub open spec fn done_text(c: Command) -> Option<Seq<char>> {
    match c {
        Command::Bind { busid } => Some("Device "@ + busid@ + " exported successfully."@),
        Command::Unbind { busid } => Some("Device "@ + busid@ + " unexported successfully."@),
        Command::Attach { remote, busid, port } => Some(
            "Attached "@ + busid@ + " from "@ + remote@ + ":"@ + decimal(
                port_or_default(port) as nat,
            ) + "."@,
        ),
        Command::Detach { port } => Some(
            "Detached device on port "@ + decimal(port as nat) + "."@,
        ),
        _ => None,
    }
}

impl Command {
    /// What the command asks of the daemon at first, if it asks anything.
    pub fn daemon_call(&self) -> (m: Option<ApiMethod>)
        ensures
            match asked_of_daemon(*self) {
                Some(x) => m matches Some(y) && y@ == x,
                None => m is None,
            },
    {
        match self {
            Command::List { local: _, remote, port: _, tls: _, tls_ca: _ } => match remote {
                None => Some(ApiMethod::ListLocalDevices),
                Some(_) => None,
            },
            Command::Bind { busid } => Some(ApiMethod::BindDevice { bus_id: busid.clone() }),
            Command::Unbind { busid } => Some(ApiMethod::UnbindDevice { bus_id: busid.clone() }),
            Command::Attach { remote, busid, port } => Some(
                ApiMethod::AttachDevice {
                    host: remote.clone(),
                    port: server_port(*port),
                    bus_id: busid.clone(),
                },
            ),
            Command::Detach { port } => Some(ApiMethod::DetachDevice { port: *port }),
            Command::Status => Some(ApiMethod::GetStatus),
            _ => None,
        }
    }

    /// What is said when the command is done.
    pub fn done_message(&self) -> (s: Option<String>)
        ensures
            match done_text(*self) {
                Some(t) => s matches Some(x) && x@ == t,
                None => s is None,
            },
    {
        match self {
            Command::Bind { busid } => Some(
                "Device ".to_owned().concat(busid.as_str()).concat(" exported successfully."),
            ),
            Command::Unbind { busid } => Some(
                "Device ".to_owned().concat(busid.as_str()).concat(" unexported successfully."),
            ),
            Command::Attach { remote, busid, port } => Some(
                "Attached ".to_owned().concat(busid.as_str()).concat(" from ").concat(
                    remote.as_str(),
                ).concat(":").concat(
                    decimal_string(server_port(*port) as u64).as_str(),
                ).concat("."),
            ),
            Command::Detach { port } => Some(
                "Detached device on port ".to_owned().concat(
                    decimal_string(*port as u64).as_str(),
                ).concat("."),
            ),
            _ => None,
        }
    }
}

/// How many seconds servers are looked for.
pub fn discover_timeout(timeout_secs: Option<u64>) -> (n: u64)
    ensures
        n == match timeout_secs {
            Some(t) => t,
            None => DEFAULT_TIMEOUT_SECS,
        },
{
    match timeout_secs {
        Some(t) => t,
        None => DEFAULT_TIMEOUT_SECS,
    }
}

/// What is said while servers are looked for, to people.
pub fn scanning_text(timeout_secs: u64, format: OutputFormat) -> (s: Option<String>)
    ensures
        match s {
            Some(t) => format == OutputFormat::Human && t@ == "Scanning for Extender servers ("@
                + decimal(timeout_secs as nat) + " seconds)..."@,
            None => format != OutputFormat::Human,
        },
{
    match format {
        OutputFormat::Human => Some(
            "Scanning for Extender servers (".to_owned().concat(
                decimal_string(timeout_secs).as_str(),
            ).concat(" seconds)..."),
        ),
        _ => None,
    }
}

/// A configuration with what the command line says over it.
pub open spec fn told(
    c: Config,
    port: Option<u16>,
    listen: Option<String>,
    socket: Option<String>,
    log_level: Option<String>,
) -> Config {
    Config {
        server: ServerConfig {
            port: match port {
                Some(p) => p,
                None => c.server.port,
            },
            listen_address: match listen {
                Some(a) => a,
                None => c.server.listen_address,
            },
            ..c.server
        },
        daemon: DaemonConfig {
            socket_path: match socket {
                Some(s) => s,
                None => c.daemon.socket_path,
            },
            log_level: match log_level {
                Some(l) => l,
                None => c.daemon.log_level,
            },
            ..c.daemon
        },
        ..c
    }
}

/// Put what the command line says over a configuration.
pub fn apply_options(
    config: &mut Config,
    port: Option<u16>,
    listen: Option<String>,
    socket: Option<String>,
    log_level: Option<String>,
)
    ensures
        *final(config) == told(*old(config), port, listen, socket, log_level),
{
    if let Some(p) = port {
        config.server.port = p;
    }
    if let Some(a) = listen {
        config.server.listen_address = a;
    }
    if let Some(s) = socket {
        config.daemon.socket_path = s;
    }
    if let Some(l) = log_level {
        config.daemon.log_level = l;
    }
}

/// Whether a server that listens on an address can be reached from other hosts.
pub fn listens_to_others(listen_address: &str) -> (b: bool)
    ensures
        b == (listen_address@ != "127.0.0.1"@ && listen_address@ != "::1"@ && listen_address@
            != "localhost"@),
{
    let addr = chars_of(listen_address);
    !same(&addr, &chars_of("127.0.0.1")) && !same(&addr, &chars_of("::1")) && !same(
        &addr,
        &chars_of("localhost"),
    )
}

/// What is said when a configuration file cannot be used.
pub fn config_warning(path: &str) -> (s: String)
    ensures
        s@ == "warning: could not load config from "@ + path@ + ", using defaults"@,
{
    "warning: could not load config from ".to_owned().concat(path).concat(", using defaults")
}

/// The version as it is shown.
pub fn version_text(version: &str) -> (s: String)
    ensures
        s@ == "extender "@ + version@,
{
    "extender ".to_owned().concat(version)
}

/// A command asks of the daemon what it is for, with the host, the port and the
/// bus ID that it names, and 3240 where it names no port.
pub proof fn law_commands_ask(c: Command, m: Option<ApiMethod>)
    requires
        call_ensures(Command::daemon_call, (&c,), m),
    ensures
        c matches Command::Attach { remote, busid, port } ==> (m matches Some(
            ApiMethod::AttachDevice { host, port: p, bus_id },
        ) && host@ == remote@ && bus_id@ == busid@ && (port matches Some(n) ==> p == n) && (
        port is None ==> p == 3240)),
        c matches Command::Bind { busid } ==> (m matches Some(ApiMethod::BindDevice { bus_id })
            && bus_id@ == busid@),
        c matches Command::Unbind { busid } ==> (m matches Some(ApiMethod::UnbindDevice { bus_id })
            && bus_id@ == busid@),
        c matches Command::Detach { port } ==> (m matches Some(ApiMethod::DetachDevice { port: p })
            && p == port),
        c is Status ==> m matches Some(ApiMethod::GetStatus),
        c matches Command::List { remote, .. } ==> (remote is None ==> m matches Some(
            ApiMethod::ListLocalDevices,
        )) && (remote is Some ==> m is None),
        c is Discover || c is Daemon || c is TlsGen || c is Version ==> m is None,
{
}

/// What is said when a command is done names the device and, of an import, the
/// server and its port.
pub proof fn law_commands_say(c: Command, s: Option<String>)
    requires
        call_ensures(Command::done_message, (&c,), s),
    ensures
        c matches Command::Attach { remote, busid, port } ==> (port matches Some(p) ==> (
        s matches Some(t) && t@ == "Attached "@ + busid@ + " from "@ + remote@ + ":"@ + decimal(
            p as nat,
        ) + "."@)),
        c matches Command::Bind { busid } ==> (s matches Some(t) && t@ == "Device "@ + busid@
            + " exported successfully."@),
        c matches Command::Unbind { busid } ==> (s matches Some(t) && t@ == "Device "@ + busid@
            + " unexported successfully."@),
        c matches Command::Detach { port } ==> (s matches Some(t) && t@
            == "Detached device on port "@ + decimal(port as nat) + "."@),
{
}

/// The command line goes before the configuration in what it says, and leaves
/// the rest.
pub proof fn law_options_over(
    c: &mut Config,
    port: Option<u16>,
    listen: Option<String>,
    socket: Option<String>,
    log_level: Option<String>,
)
    requires
        call_ensures(apply_options, (c, port, listen, socket, log_level), ()),
    ensures
        port matches Some(p) ==> final(c).server.port == p,
        port is None ==> final(c).server.port == old(c).server.port,
        listen matches Some(a) ==> final(c).server.listen_address == a,
        listen is None ==> final(c).server.listen_address == old(c).server.listen_address,
        socket matches Some(s) ==> final(c).daemon.socket_path == s,
        socket is None ==> final(c).daemon.socket_path == old(c).daemon.socket_path,
        log_level matches Some(l) ==> final(c).daemon.log_level == l,
        log_level is None ==> final(c).daemon.log_level == old(c).daemon.log_level,
        final(c).server.max_connections == old(c).server.max_connections,
        final(c).client == old(c).client,
        final(c).security == old(c).security,
        final(c).daemon.pid_file == old(c).daemon.pid_file,
{
}

/// A server is taken to be out of reach for other hosts exactly where it listens
/// on one of the three names of this host.
pub proof fn law_reach(address: &str, b: bool)
    requires
        call_ensures(listens_to_others, (address,), b),
    ensures
        address@ == "127.0.0.1"@ ==> !b,
        address@ == "::1"@ ==> !b,
        address@ == "localhost"@ ==> !b,
        !b ==> address@ == "127.0.0.1"@ || address@ == "::1"@ || address@ == "localhost"@,
{
}

/// Ports and times that are named are used, and else 3240 and three seconds.
pub proof fn law_defaults(port: Option<u16>, timeout: Option<u64>, p: u16, t: u64)
    requires
        call_ensures(server_port, (port,), p),
        call_ensures(discover_timeout, (timeout,), t),
    ensures
        port matches Some(n) ==> p == n,
        port is None ==> p == 3240,
        timeout matches Some(n) ==> t == n,
        timeout is None ==> t == 3,
{
}

} // verus!
