//! Configuration: its defaults, and the layers that are put over them.

use vstd::prelude::*;
use vstd::string::*;

use crate::api::json::texts;
use crate::scan::{digits_numeral, numeral, parse_numeral, Numeral};
use crate::text::{chars_of, text_option};

verus! {

/// The file of the configuration for the whole machine.
pub const SYSTEM_CONFIG_PATH: &'static str = "/etc/extender/config.toml";

/// The configuration.
#[derive(Debug, Clone)]
pub struct Config {
    pub server: ServerConfig,
    pub client: ClientConfig,
    pub daemon: DaemonConfig,
    pub security: SecurityConfig,
}

/// How devices are offered.
#[derive(Debug, Clone)]
pub struct ServerConfig {
    pub listen_address: String,
    pub port: u16,
    pub max_connections: u32,
}

/// How devices are imported.
#[derive(Debug, Clone)]
pub struct ClientConfig {
    pub vhci_path: String,
}

/// How the daemon runs.
#[derive(Debug, Clone)]
pub struct DaemonConfig {
    pub socket_path: String,
    pub pid_file: String,
    pub log_level: String,
    pub log_format: String,
    pub drop_user: Option<String>,
    pub drop_group: Option<String>,
}

/// Which devices may be offered.
#[derive(Debug, Clone)]
pub struct SecurityConfig {
    pub allowed_devices: Vec<String>,
    pub denied_devices: Vec<String>,
}

/// What a part of the configuration for the server holds.
pub struct ServerConfigModel {
    pub listen_address: Seq<char>,
    pub port: u16,
    pub max_connections: u32,
}

/// What a part of the configuration for the daemon holds.
pub struct DaemonConfigModel {
    pub socket_path: Seq<char>,
    pub pid_file: Seq<char>,
    pub log_level: Seq<char>,
    pub log_format: Seq<char>,
    pub drop_user: Option<Seq<char>>,
    pub drop_group: Option<Seq<char>>,
}

/// What a part of the configuration for security holds.
#[verifier::ext_equal]
pub struct SecurityConfigModel {
    pub allowed_devices: Seq<Seq<char>>,
    pub denied_devices: Seq<Seq<char>>,
}

/// What a configuration holds.
pub struct ConfigModel {
    pub server: ServerConfigModel,
    pub vhci_path: Seq<char>,
    pub daemon: DaemonConfigModel,
    pub security: SecurityConfigModel,
}

impl View for ServerConfig {
    type V = ServerConfigModel;

    open spec fn view(&self) -> ServerConfigModel {
        ServerConfigModel {
            listen_address: self.listen_address@,
            port: self.port,
            max_connections: self.max_connections,
        }
    }
}

impl View for DaemonConfig {
    type V = DaemonConfigModel;

    open spec fn view(&self) -> DaemonConfigModel {
        DaemonConfigModel {
            socket_path: self.socket_path@,
            pid_file: self.pid_file@,
            log_level: self.log_level@,
            log_format: self.log_format@,
            drop_user: text_option(self.drop_user),
            drop_group: text_option(self.drop_group),
        }
    }
}

impl View for SecurityConfig {
    type V = SecurityConfigModel;

    open spec fn view(&self) -> SecurityConfigModel {
        SecurityConfigModel {
            allowed_devices: texts(self.allowed_devices@),
            denied_devices: texts(self.denied_devices@),
        }
    }
}

impl View for Config {
    type V = ConfigModel;

    open spec fn view(&self) -> ConfigModel {
        ConfigModel {
            server: self.server@,
            vhci_path: self.client.vhci_path@,
            daemon: self.daemon@,
            security: self.security@,
        }
    }
}

/// The server where nothing else is said.
pub open spec fn default_server() -> ServerConfigModel {
    ServerConfigModel { listen_address: "127.0.0.1"@, port: 3240, max_connections: 16 }
}

/// The daemon where nothing else is said: the superuser's files stand in one
/// directory, those of another user in that user's own, or else in that for
/// temporary files.
pub open spec fn default_daemon(root: bool, runtime_dir: Option<Seq<char>>) -> DaemonConfigModel {
    let dir = if root {
        "/var/run"@
    } else {
        match runtime_dir {
            Some(d) => d,
            None => "/tmp"@,
        }
    };
    DaemonConfigModel {
        socket_path: dir + "/extender.sock"@,
        pid_file: dir + "/extender.pid"@,
        log_level: "info"@,
        log_format: "text"@,
        drop_user: None,
        drop_group: None,
    }
}

/// The configuration where nothing else is said.
pub open spec fn default_config(root: bool, runtime_dir: Option<Seq<char>>) -> ConfigModel {
    ConfigModel {
        server: default_server(),
        vhci_path: "/sys/devices/platform/vhci_hcd.0"@,
        daemon: default_daemon(root, runtime_dir),
        security: SecurityConfigModel {
            allowed_devices: Seq::empty(),
            denied_devices: Seq::empty(),
        },
    }
}

impl Default for ServerConfig {
    fn default() -> (c: Self)
        ensures
            c@ == default_server(),
    {
        ServerConfig { listen_address: "127.0.0.1".to_owned(), port: 3240, max_connections: 16 }
    }
}

impl Default for ClientConfig {
    fn default() -> (c: Self)
        ensures
            c.vhci_path@ == "/sys/devices/platform/vhci_hcd.0"@,
    {
        ClientConfig { vhci_path: "/sys/devices/platform/vhci_hcd.0".to_owned() }
    }
}

impl Default for SecurityConfig {
    fn default() -> (c: Self)
        ensures
            c@ == (SecurityConfigModel {
                allowed_devices: Seq::empty(),
                denied_devices: Seq::empty(),
            }),
    {
        let c = SecurityConfig { allowed_devices: Vec::new(), denied_devices: Vec::new() };
        assert(c@ =~= (SecurityConfigModel {
            allowed_devices: Seq::empty(),
            denied_devices: Seq::empty(),
        }));
        c
    }
}

impl DaemonConfig {
    /// The daemon where nothing else is said, for the superuser or for a user
    /// with a directory for such files.
    pub fn default_for(root: bool, runtime_dir: &Option<String>) -> (c: Self)
        ensures
            c@ == default_daemon(root, text_option(*runtime_dir)),
    {
        let dir: String = if root {
            "/var/run".to_owned()
        } else {
            match runtime_dir {
                Some(d) => d.clone(),
                None => "/tmp".to_owned(),
            }
        };
        DaemonConfig {
            socket_path: dir.clone().concat("/extender.sock"),
            pid_file: dir.concat("/extender.pid"),
            log_level: "info".to_owned(),
            log_format: "text".to_owned(),
            drop_user: None,
            drop_group: None,
        }
    }
}

/// A configuration file: the sections that stand in it.
#[derive(Debug)]
pub struct ConfigFile {
    pub server: Option<ServerConfig>,
    pub client: Option<ClientConfig>,
    pub daemon: Option<DaemonConfig>,
    pub security: Option<SecurityConfig>,
}

/// What the environment says.
#[derive(Debug)]
pub struct Environment {
    pub host: Option<String>,
    pub port: Option<String>,
    pub socket: Option<String>,
    pub log_level: Option<String>,
}

/// The port that a text stands for.
pub open spec fn port_of(s: Seq<char>) -> Option<u16> {
    match numeral(s, 10, 65535) {
        Numeral::Value(v) => Some(v as u16),
        _ => None,
    }
}

/// The port that a text stands for.
pub fn parse_port(s: &str) -> (r: Option<u16>)
    ensures
        r == port_of(s@),
{
    proof {
        crate::scan::lemma_numeral_bound(s@, 10, 65535);
    }
    match parse_numeral(&chars_of(s), 10, 65535) {
        Numeral::Value(v) => Some(v as u16),
        _ => None,
    }
}

/// A configuration with a file over it: a section that stands in the file
/// takes the place of the whole section.
pub open spec fn merged(c: Config, f: ConfigFile) -> Config {
    Config {
        server: match f.server {
            Some(s) => s,
            None => c.server,
        },
        client: match f.client {
            Some(s) => s,
            None => c.client,
        },
        daemon: match f.daemon {
            Some(s) => s,
            None => c.daemon,
        },
        security: match f.security {
            Some(s) => s,
            None => c.security,
        },
    }
}

/// A configuration with a file over it, if there is one.
pub open spec fn layered(c: Config, f: Option<ConfigFile>) -> Config {
    match f {
        Some(f) => merged(c, f),
        None => c,
    }
}

/// A configuration with the environment over it. A port that is none is passed
/// over.
pub open spec fn overridden(c: Config, env: Environment) -> Config {
    Config {
        server: ServerConfig {
            listen_address: match env.host {
                Some(h) => h,
                None => c.server.listen_address,
            },
            port: match env.port {
                Some(p) => match port_of(p@) {
                    Some(n) => n,
                    None => c.server.port,
                },
                None => c.server.port,
            },
            ..c.server
        },
        daemon: DaemonConfig {
            socket_path: match env.socket {
                Some(s) => s,
                None => c.daemon.socket_path,
            },
            log_level: match env.log_level {
                Some(l) => l,
                None => c.daemon.log_level,
            },
            ..c.daemon
        },
        ..c
    }
}

impl Config {
    /// The configuration where nothing else is said.
    pub fn default_for(root: bool, runtime_dir: &Option<String>) -> (c: Self)
        ensures
            c@ == default_config(root, text_option(*runtime_dir)),
    {
        Config {
            server: ServerConfig::default(),
            client: ClientConfig::default(),
            daemon: DaemonConfig::default_for(root, runtime_dir),
            security: SecurityConfig::default(),
        }
    }

    /// Put a file over the configuration: a section that stands in the file
    /// takes the place of the whole section.
    pub fn merge_from(&mut self, other: ConfigFile)
        ensures
            *final(self) == merged(*old(self), other),
    {
        if let Some(s) = other.server {
            self.server = s;
        }
        if let Some(s) = other.client {
            self.client = s;
        }
        if let Some(s) = other.daemon {
            self.daemon = s;
        }
        if let Some(s) = other.security {
            self.security = s;
        }
    }

    /// Put the environment over the configuration. A port that is none is
    /// passed over.
    pub fn apply_env_overrides(&mut self, env: Environment)
        ensures
            *final(self) == overridden(*old(self), env),
    {
        if let Some(h) = env.host {
            self.server.listen_address = h;
        }
        if let Some(p) = &env.port {
            if let Some(n) = parse_port(p.as_str()) {
                self.server.port = n;
            }
        }
        if let Some(s) = env.socket {
            self.daemon.socket_path = s;
        }
        if let Some(l) = env.log_level {
            self.daemon.log_level = l;
        }
    }

    /// The configuration by all of its layers: over the defaults the file for
    /// the machine, over that the file of the user, over that the environment.
    pub fn load(
        defaults: Config,
        system: Option<ConfigFile>,
        user: Option<ConfigFile>,
        env: Environment,
    ) -> (c: Self)
        ensures
            c == overridden(layered(layered(defaults, system), user), env),
    {
        let mut config = defaults;
        if let Some(f) = system {
            config.merge_from(f);
        }
        if let Some(f) = user {
            config.merge_from(f);
        }
        config.apply_env_overrides(env);
        config
    }
}

/// What the highest layer says that says anything.
pub open spec fn highest<T>(user: Option<T>, system: Option<T>, otherwise: T) -> T {
    match user {
        Some(t) => t,
        None => match system {
            Some(t) => t,
            None => otherwise,
        },
    }
}

/// Every section comes whole from the highest layer that has it, but for the
/// four things that the environment can say, which go before all layers.
pub proof fn law_layers(defaults: Config, system: ConfigFile, user: ConfigFile, env: Environment)
    ensures
        ({
            let c = overridden(layered(layered(defaults, Some(system)), Some(user)), env);
            let server = highest(user.server, system.server, defaults.server);
            let daemon = highest(user.daemon, system.daemon, defaults.daemon);
            &&& c.client == highest(user.client, system.client, defaults.client)
            &&& c.security == highest(user.security, system.security, defaults.security)
            &&& c.server.max_connections == server.max_connections
            &&& c.server.listen_address == highest(env.host, None, server.listen_address)
            &&& c.server.port == match env.port {
                Some(p) => highest(port_of(p@), None, server.port),
                None => server.port,
            }
            &&& c.daemon == (DaemonConfig {
                socket_path: highest(env.socket, None, daemon.socket_path),
                log_level: highest(env.log_level, None, daemon.log_level),
                ..daemon
            })
        }),
{
}

/// A configuration that is loaded has of every section what the highest layer
/// says: the user's file before the machine's, and that before the defaults. The
/// environment goes before all of them, for the address, the port where it is
/// one, the socket and the level of the log.
pub proof fn law_loaded(
    defaults: Config,
    system: Option<ConfigFile>,
    user: Option<ConfigFile>,
    env: Environment,
    c: Config,
)
    requires
        call_ensures(Config::load, (defaults, system, user, env), c),
    ensures
        user matches Some(u) ==> (u.security matches Some(s) ==> c.security == s),
        user matches Some(u) ==> (u.client matches Some(s) ==> c.client == s),
        user matches Some(u) ==> (u.server matches Some(s) ==> c.server.max_connections
            == s.max_connections),
        user is None && system is None ==> c.security == defaults.security && c.client
            == defaults.client && c.daemon.pid_file == defaults.daemon.pid_file
            && c.server.max_connections == defaults.server.max_connections,
        user is None ==> (system matches Some(f) ==> (f.security matches Some(s) ==> c.security
            == s)),
        user is None ==> (system matches Some(f) ==> (f.client matches Some(s) ==> c.client
            == s)),
        env.host matches Some(h) ==> c.server.listen_address == h,
        env.socket matches Some(s) ==> c.daemon.socket_path == s,
        env.log_level matches Some(l) ==> c.daemon.log_level == l,
        env.port matches Some(p) ==> (port_of(p@) matches Some(n) ==> c.server.port == n),
        env.host is None && env.port is None ==> (user matches Some(u) ==> (u.server matches Some(s)
            ==> c.server == s)),
        env.socket is None && env.log_level is None ==> (user matches Some(u) ==> (
        u.daemon matches Some(d) ==> c.daemon == d)),
{
}

/// A file put over a configuration replaces the sections that it has and leaves
/// the others.
pub proof fn law_file_over(c: &mut Config, f: ConfigFile)
    requires
        call_ensures(Config::merge_from, (c, f), ()),
    ensures
        f.server is None ==> final(c).server == old(c).server,
        f.server matches Some(s) ==> final(c).server == s,
        f.client is None ==> final(c).client == old(c).client,
        f.client matches Some(s) ==> final(c).client == s,
        f.daemon is None ==> final(c).daemon == old(c).daemon,
        f.daemon matches Some(s) ==> final(c).daemon == s,
        f.security is None ==> final(c).security == old(c).security,
        f.security matches Some(s) ==> final(c).security == s,
{
}

/// The environment replaces what it says and leaves all else as it was.
pub proof fn law_environment_over(c: &mut Config, env: Environment)
    requires
        call_ensures(Config::apply_env_overrides, (c, env), ()),
    ensures
        env.host is None ==> final(c).server.listen_address == old(c).server.listen_address,
        env.host matches Some(h) ==> final(c).server.listen_address == h,
        env.port is None ==> final(c).server.port == old(c).server.port,
        env.port matches Some(p) ==> (port_of(p@) is None ==> final(c).server.port == old(
            c).server.port),
        env.port matches Some(p) ==> (port_of(p@) matches Some(n) ==> final(c).server.port == n),
        env.socket is None ==> final(c).daemon.socket_path == old(c).daemon.socket_path,
        env.socket matches Some(s) ==> final(c).daemon.socket_path == s,
        env.log_level is None ==> final(c).daemon.log_level == old(c).daemon.log_level,
        env.log_level matches Some(l) ==> final(c).daemon.log_level == l,
        final(c).server.max_connections == old(c).server.max_connections,
        final(c).client == old(c).client,
        final(c).security == old(c).security,
        final(c).daemon.pid_file == old(c).daemon.pid_file,
        final(c).daemon.log_format == old(c).daemon.log_format,
        final(c).daemon.drop_user == old(c).daemon.drop_user,
        final(c).daemon.drop_group == old(c).daemon.drop_group,
{
}

/// The decimal digits of a port are read as the port, and those of a larger
/// number as none.
pub proof fn law_port_read(n: u32, text: &str, r: Option<u16>)
    requires
        text@ == crate::text::decimal(n as nat),
        call_ensures(parse_port, (text,), r),
    ensures
        n <= 65535 ==> r == Some(n as u16),
        r matches Some(p) ==> p == n,
{
    if n <= 65535 {
        crate::scan::law_decimal_read(n as nat, 65535);
    } else {
        crate::daemon::privileges::lemma_decimal_numeral(n as nat, u64::MAX as nat);
        lemma_too_large(text@, 65535, u64::MAX as nat);
    }
}

proof fn lemma_too_large(s: Seq<char>, small: nat, large: nat)
    requires
        small <= large <= u64::MAX,
        s.len() > 0,
        s[0] != '+',
        s[0] != '-',
        digits_numeral(s, 10, large) is Value,
    ensures
        numeral(s, 10, small) matches Numeral::Value(v) ==> digits_numeral(s, 10, large)
            == Numeral::Value(v),
{
    lemma_same_value(s, small, large);
}

proof fn lemma_same_value(s: Seq<char>, small: nat, large: nat)
    requires
        small <= large <= u64::MAX,
    ensures
        digits_numeral(s, 10, small) matches Numeral::Value(v) ==> digits_numeral(s, 10, large)
            == Numeral::Value(v),
    decreases s.len(),
{
    if s.len() > 0 {
        lemma_same_value(s.drop_last(), small, large);
    }
}

/// Where nothing else is said, a server is reached from this host alone, at port
/// 3240, by up to sixteen clients; the files of the superuser's daemon are in one
/// directory, those of another user's in that user's own.
pub proof fn law_defaults(root: bool, runtime_dir: Option<String>, c: Config)
    requires
        call_ensures(Config::default_for, (root, &runtime_dir), c),
    ensures
        c.server.listen_address@ == "127.0.0.1"@,
        c.server.port == 3240,
        c.server.max_connections == 16,
        root ==> c.daemon.socket_path@ == "/var/run"@ + "/extender.sock"@ && c.daemon.pid_file@
            == "/var/run"@ + "/extender.pid"@,
        !root ==> (runtime_dir matches Some(d) ==> c.daemon.socket_path@ == d@ + "/extender.sock"@
            && c.daemon.pid_file@ == d@ + "/extender.pid"@),
        !root && runtime_dir is None ==> c.daemon.socket_path@ == "/tmp"@ + "/extender.sock"@
            && c.daemon.pid_file@ == "/tmp"@ + "/extender.pid"@,
        c.daemon.log_level@ == "info"@,
        c.daemon.log_format@ == "text"@,
        c.daemon.drop_user is None,
        c.daemon.drop_group is None,
        c.security.allowed_devices@.len() == 0,
        c.security.denied_devices@.len() == 0,
{
    assert(texts(c.security.allowed_devices@).len() == c.security.allowed_devices@.len());
    assert(texts(c.security.denied_devices@).len() == c.security.denied_devices@.len());
}

} // verus!
