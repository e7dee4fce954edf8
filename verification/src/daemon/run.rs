//! What the daemon does as it starts, by its configuration.

use vstd::prelude::*;
use vstd::string::*;

use crate::daemon::config::Config;
use crate::scan::{part, same, stands_at};
use crate::text::{chars_of, copy_text, decimal, decimal_string, text_option};

verus! {

/// How events are written to the log.
#[derive(Debug, Clone, Copy, PartialEq, Eq, Structural)]
pub enum LogFormat {
    Json,
    Text,
}

/// How the server encrypts its connections.
#[derive(Debug)]
pub enum TlsChoice {
    /// With this certificate and key, and these certificates to trust.
    Encrypted { cert_path: String, key_path: String, ca_path: Option<String> },
    /// Not at all, though half of what it takes is configured.
    Incomplete,
    /// Not at all.
    Plain,
}

/// A text ends with another.
pub open spec fn ends_with(s: Seq<char>, end: Seq<char>) -> bool {
    stands_at(s, s.len() - end.len(), end)
}

fn has_end(s: &str, end: &str) -> (b: bool)
    ensures
        b == ends_with(s@, end@),
{
    let text = chars_of(s);
    let tail = chars_of(end);
    if text.len() < tail.len() {
        return false;
    }
    let from: usize = text.len() - tail.len();
    same(&part(&text, from, text.len()), &tail)
}

/// The daemon.
#[derive(Debug)]
pub struct Daemon {
    pub config: Config,
}

impl Daemon {
    /// The daemon with a configuration.
    pub fn new(config: Config) -> (d: Self)
        ensures
            d.config == config,
    {
        Daemon { config }
    }

    /// How events are written to the log.
    pub fn log_format(&self) -> (f: LogFormat)
        ensures
            f == if self.config.daemon.log_format@ == "json"@ {
                LogFormat::Json
            } else {
                LogFormat::Text
            },
    {
        if same(&chars_of(self.config.daemon.log_format.as_str()), &chars_of("json")) {
            LogFormat::Json
        } else {
            LogFormat::Text
        }
    }

    /// The process file. Where none but the usual one is configured, it stands
    /// beside the socket, in the directory `socket_dir`, or else in that for
    /// temporary files.
    pub fn pid_file(&self, socket_dir: &Option<String>) -> (s: String)
        ensures
            s@ == if ends_with(self.config.daemon.pid_file@, "/extender.pid"@) {
                (match text_option(*socket_dir) {
                    Some(d) => d,
                    None => "/tmp"@,
                }) + "/extender.pid"@
            } else {
                self.config.daemon.pid_file@
            },
    {
        if has_end(self.config.daemon.pid_file.as_str(), "/extender.pid") {
            let dir: String = match socket_dir {
                Some(d) => d.clone(),
                None => "/tmp".to_owned(),
            };
            dir.concat("/extender.pid")
        } else {
            self.config.daemon.pid_file.clone()
        }
    }

    /// The user and the group to become: only where both are configured.
    pub fn drop_to(&self) -> (r: Option<(String, String)>)
        ensures
            match (
                text_option(self.config.daemon.drop_user),
                text_option(self.config.daemon.drop_group),
            ) {
                (Some(user), Some(group)) => r matches Some((u, g)) && u@ == user && g@ == group,
                _ => r is None,
            },
    {
        match (
            copy_text(&self.config.daemon.drop_user),
            copy_text(&self.config.daemon.drop_group),
        ) {
            (Some(user), Some(group)) => Some((user, group)),
            _ => None,
        }
    }

    /// The address that the server listens on, as it is written.
    pub fn listen_addr(&self) -> (s: String)
        ensures
            s@ == self.config.server.listen_address@ + ":"@ + decimal(
                self.config.server.port as nat,
            ),
    {
        self.config.server.listen_address.clone().concat(":").concat(
            decimal_string(self.config.server.port as u64).as_str(),
        )
    }
}

/// What the daemon does from its start to its end.
#[derive(Debug, Clone, Copy, PartialEq, Eq, Structural)]
pub enum RunStep {
    CreatePidFile,
    /// Read the address to listen on.
    ReadAddress,
    /// Listen for clients of the devices on offer.
    StartServer,
    /// Listen for requests of the command line.
    BindApi,
    DropPrivileges,
    Advertise,
    HandleSignals,
    /// Answer requests until the shutdown.
    Serve,
    StopServer,
    StopAdvertising,
    RemovePidFile,
    Finished,
    /// End with the error of the step before.
    Failed,
}

/// The step that comes after another, by whether that one succeeded. Sockets
/// are bound before privileges are given up, and privileges are given up before
/// anything is served. Without its process file, an address or what it takes
/// to give up privileges the daemon does not run; without a server, without the
/// socket of the command line or without an advertisement it does.
pub open spec fn step_after(at: RunStep, succeeded: bool, drops: bool, advertises: bool) -> RunStep {
    match at {
        RunStep::CreatePidFile => if succeeded {
            RunStep::ReadAddress
        } else {
            RunStep::Failed
        },
        RunStep::ReadAddress => if succeeded {
            RunStep::StartServer
        } else {
            RunStep::Failed
        },
        RunStep::StartServer => RunStep::BindApi,
        RunStep::BindApi => if drops {
            RunStep::DropPrivileges
        } else if advertises {
            RunStep::Advertise
        } else {
            RunStep::HandleSignals
        },
        RunStep::DropPrivileges => if !succeeded {
            RunStep::Failed
        } else if advertises {
            RunStep::Advertise
        } else {
            RunStep::HandleSignals
        },
        RunStep::Advertise => RunStep::HandleSignals,
        RunStep::HandleSignals => RunStep::Serve,
        RunStep::Serve => RunStep::StopServer,
        RunStep::StopServer => RunStep::StopAdvertising,
        RunStep::StopAdvertising => RunStep::RemovePidFile,
        RunStep::RemovePidFile => RunStep::Finished,
        RunStep::Finished => RunStep::Finished,
        RunStep::Failed => RunStep::Failed,
    }
}

impl Daemon {
    /// The step that comes after another, by whether that one succeeded.
    pub fn next_step(&self, at: RunStep, succeeded: bool, advertises: bool) -> (next: RunStep)
        ensures
            next == step_after(
                at,
                succeeded,
                self.config.daemon.drop_user is Some && self.config.daemon.drop_group is Some,
                advertises,
            ),
    {
        let drops: bool = match (&self.config.daemon.drop_user, &self.config.daemon.drop_group) {
            (Some(_), Some(_)) => true,
            _ => false,
        };
        match at {
            RunStep::CreatePidFile => if succeeded {
                RunStep::ReadAddress
            } else {
                RunStep::Failed
            },
            RunStep::ReadAddress => if succeeded {
                RunStep::StartServer
            } else {
                RunStep::Failed
            },
            RunStep::StartServer => RunStep::BindApi,
            RunStep::BindApi => if drops {
                RunStep::DropPrivileges
            } else if advertises {
                RunStep::Advertise
            } else {
                RunStep::HandleSignals
            },
            RunStep::DropPrivileges => if !succeeded {
                RunStep::Failed
            } else if advertises {
                RunStep::Advertise
            } else {
                RunStep::HandleSignals
            },
            RunStep::Advertise => RunStep::HandleSignals,
            RunStep::HandleSignals => RunStep::Serve,
            RunStep::Serve => RunStep::StopServer,
            RunStep::StopServer => RunStep::StopAdvertising,
            RunStep::StopAdvertising => RunStep::RemovePidFile,
            RunStep::RemovePidFile => RunStep::Finished,
            RunStep::Finished => RunStep::Finished,
            RunStep::Failed => RunStep::Failed,
        }
    }
}

/// The steps that a daemon takes one after the other, each with whether it
/// succeeded.
pub open spec fn is_run(steps: Seq<(RunStep, bool)>, drops: bool, advertises: bool) -> bool {
    &&& steps.len() > 0
    &&& steps[0].0 == RunStep::CreatePidFile
    &&& forall|i: int|
        0 <= i < steps.len() - 1 ==> (#[trigger] steps[i + 1]).0 == step_after(
            steps[i].0,
            steps[i].1,
            drops,
            advertises,
        )
}

/// A step has been taken, with success, before another.
pub open spec fn done_before(steps: Seq<(RunStep, bool)>, step: RunStep, k: int) -> bool {
    exists|i: int| 0 <= i < k && #[trigger] steps[i] == (step, true)
}

/// A step has been taken, with success or without, before another.
pub open spec fn taken_before(steps: Seq<(RunStep, bool)>, step: RunStep, k: int) -> bool {
    exists|i: int| 0 <= i < k && (#[trigger] steps[i]).0 == step
}

/// How many steps come before a step at the least.
pub open spec fn rank(step: RunStep) -> int {
    match step {
        RunStep::CreatePidFile => 0,
        RunStep::ReadAddress => 1,
        RunStep::StartServer => 2,
        RunStep::BindApi => 3,
        RunStep::DropPrivileges => 4,
        RunStep::Advertise => 5,
        RunStep::HandleSignals => 6,
        RunStep::Serve => 7,
        RunStep::StopServer => 8,
        RunStep::StopAdvertising => 9,
        RunStep::RemovePidFile => 10,
        RunStep::Finished => 11,
        RunStep::Failed => 11,
    }
}

proof fn lemma_run(steps: Seq<(RunStep, bool)>, drops: bool, advertises: bool, k: int)
    requires
        is_run(steps, drops, advertises),
        0 <= k < steps.len(),
    ensures
        rank(steps[k].0) >= if k < 11 {
            k
        } else {
            11
        },
        rank(steps[k].0) > 0 && steps[k].0 != RunStep::Failed ==> done_before(
            steps,
            RunStep::CreatePidFile,
            k,
        ),
        3 <= rank(steps[k].0) <= 10 ==> taken_before(steps, RunStep::StartServer, k),
        4 <= rank(steps[k].0) <= 10 ==> taken_before(steps, RunStep::BindApi, k),
        8 <= rank(steps[k].0) <= 10 ==> taken_before(steps, RunStep::Serve, k),
        5 <= rank(steps[k].0) <= 7 && drops ==> done_before(steps, RunStep::DropPrivileges, k),
        steps[k].0 == RunStep::DropPrivileges ==> drops,
    decreases k,
{
    if k > 0 {
        lemma_run(steps, drops, advertises, k - 1);
        let last = steps[k - 1];
        assert(steps[(k - 1) + 1].0 == step_after(last.0, last.1, drops, advertises));
        assert forall|step: RunStep| done_before(steps, step, k - 1) implies done_before(
            steps,
            step,
            k,
        ) by {
            let i = choose|i: int| 0 <= i < k - 1 && #[trigger] steps[i] == (step, true);
            assert(steps[i] == (step, true));
        }
        assert forall|step: RunStep| taken_before(steps, step, k - 1) implies taken_before(
            steps,
            step,
            k,
        ) by {
            let i = choose|i: int| 0 <= i < k - 1 && (#[trigger] steps[i]).0 == step;
            assert(steps[i].0 == step);
        }
        assert(taken_before(steps, last.0, k));
        assert(last == (last.0, last.1));
        if last.1 {
            assert(done_before(steps, last.0, k)) by {
                assert(steps[k - 1] == (last.0, true));
            }
        }
    }
}

/// Nothing is served before the process file is there and it was tried to
/// listen for clients and for the command line; and where privileges are to be
/// given up, they have been.
pub proof fn law_served_last(
    steps: Seq<(RunStep, bool)>,
    drops: bool,
    advertises: bool,
    k: int,
)
    requires
        is_run(steps, drops, advertises),
        0 <= k < steps.len(),
        steps[k].0 == RunStep::Serve,
    ensures
        done_before(steps, RunStep::CreatePidFile, k),
        taken_before(steps, RunStep::StartServer, k),
        taken_before(steps, RunStep::BindApi, k),
        drops ==> done_before(steps, RunStep::DropPrivileges, k),
{
    lemma_run(steps, drops, advertises, k);
}

/// Privileges are given up only after the sockets for clients and for the
/// command line were to be bound, and only where they are to be.
pub proof fn law_privileges_after_sockets(
    steps: Seq<(RunStep, bool)>,
    drops: bool,
    advertises: bool,
    k: int,
)
    requires
        is_run(steps, drops, advertises),
        0 <= k < steps.len(),
        steps[k].0 == RunStep::DropPrivileges,
    ensures
        drops,
        taken_before(steps, RunStep::StartServer, k),
        taken_before(steps, RunStep::BindApi, k),
{
    lemma_run(steps, drops, advertises, k);
}

/// The server is stopped, and the process file removed, only after serving,
/// whether or not the daemon listens for the command line.
pub proof fn law_stops_after_serving(
    steps: Seq<(RunStep, bool)>,
    drops: bool,
    advertises: bool,
    k: int,
)
    requires
        is_run(steps, drops, advertises),
        0 <= k < steps.len(),
        steps[k].0 == RunStep::StopServer || steps[k].0 == RunStep::RemovePidFile,
    ensures
        taken_before(steps, RunStep::Serve, k),
{
    lemma_run(steps, drops, advertises, k);
}

/// The daemon comes to an end, well or with an error, after eleven steps at the
/// most.
pub proof fn law_run_ends(
    steps: Seq<(RunStep, bool)>,
    drops: bool,
    advertises: bool,
    k: int,
)
    requires
        is_run(steps, drops, advertises),
        11 <= k < steps.len(),
    ensures
        steps[k].0 == RunStep::Finished || steps[k].0 == RunStep::Failed,
{
    lemma_run(steps, drops, advertises, k);
}

/// How the server encrypts its connections: it takes a certificate and a key.
pub fn tls_choice(cert: &Option<String>, key: &Option<String>, ca: &Option<String>) -> (c:
    TlsChoice)
    ensures
        match (text_option(*cert), text_option(*key)) {
            (Some(cp), Some(kp)) => c matches TlsChoice::Encrypted { cert_path, key_path, ca_path }
                && cert_path@ == cp && key_path@ == kp && text_option(ca_path) == text_option(*ca),
            (None, None) => c == TlsChoice::Plain,
            _ => c == TlsChoice::Incomplete,
        },
{
    match (copy_text(cert), copy_text(key)) {
        (Some(cert_path), Some(key_path)) => TlsChoice::Encrypted {
            cert_path,
            key_path,
            ca_path: copy_text(ca),
        },
        (None, None) => TlsChoice::Plain,
        _ => TlsChoice::Incomplete,
    }
}

/// A step of the daemon leads to serving only through giving up privileges,
/// where both a user and a group are configured; and a step that it cannot do
/// without leads to the end.
pub proof fn law_steps(d: Daemon, at: RunStep, succeeded: bool, advertises: bool, next: RunStep)
    requires
        call_ensures(Daemon::next_step, (&d, at, succeeded, advertises), next),
    ensures
        next == RunStep::Serve <==> at == RunStep::HandleSignals,
        next == RunStep::DropPrivileges <==> at == RunStep::BindApi
            && d.config.daemon.drop_user is Some && d.config.daemon.drop_group is Some,
        next == RunStep::Failed <==> at == RunStep::Failed || (!succeeded && (at
            == RunStep::CreatePidFile || at == RunStep::ReadAddress || at
            == RunStep::DropPrivileges)),
        next == RunStep::StartServer <==> at == RunStep::ReadAddress && succeeded,
        next == RunStep::BindApi <==> at == RunStep::StartServer,
        next == RunStep::Advertise ==> advertises,
        next == RunStep::RemovePidFile <==> at == RunStep::StopAdvertising,
        next == RunStep::StopServer <==> at == RunStep::Serve,
{
}

/// The user and the group to become are those of the configuration, each in its
/// own place.
pub proof fn law_drop_to(d: Daemon, r: Option<(String, String)>)
    requires
        call_ensures(Daemon::drop_to, (&d,), r),
    ensures
        r is Some <==> d.config.daemon.drop_user is Some && d.config.daemon.drop_group is Some,
        r matches Some(p) ==> (d.config.daemon.drop_user matches Some(u) && p.0@ == u@) && (
        d.config.daemon.drop_group matches Some(g) && p.1@ == g@),
{
}

/// Encryption takes a certificate and a key, and uses each as what it is; half
/// of them is told apart from none.
pub proof fn law_encryption(
    cert: Option<String>,
    key: Option<String>,
    ca: Option<String>,
    c: TlsChoice,
)
    requires
        call_ensures(tls_choice, (&cert, &key, &ca), c),
    ensures
        c is Encrypted <==> cert is Some && key is Some,
        c is Plain <==> cert is None && key is None,
        c is Incomplete <==> cert is Some != key is Some,
        c matches TlsChoice::Encrypted { cert_path, key_path, ca_path } ==> (cert matches Some(p)
            && cert_path@ == p@) && (key matches Some(p) && key_path@ == p@) && (ca is Some
            <==> ca_path is Some) && (ca matches Some(p) ==> ca_path matches Some(q) && q@ == p@),
{
}

/// The server listens on the configured address and port.
pub proof fn law_listens(d: Daemon, s: String)
    requires
        call_ensures(Daemon::listen_addr, (&d,), s),
    ensures
        s@ == d.config.server.listen_address@ + seq![':'] + decimal(d.config.server.port as nat),
{
    reveal_strlit(":");
    assert(":"@ =~= seq![':']);
}

/// The process file is the configured one, unless that is the usual one: this
/// stands beside the socket.
pub proof fn law_pid_file(d: Daemon, socket_dir: Option<String>, s: String)
    requires
        call_ensures(Daemon::pid_file, (&d, &socket_dir), s),
    ensures
        !ends_with(d.config.daemon.pid_file@, "/extender.pid"@) ==> s@
            == d.config.daemon.pid_file@,
        ends_with(d.config.daemon.pid_file@, "/extender.pid"@) ==> (socket_dir matches Some(dir)
            ==> s@ == dir@ + "/extender.pid"@),
        ends_with(d.config.daemon.pid_file@, "/extender.pid"@) && socket_dir is None ==> s@
            == "/tmp"@ + "/extender.pid"@,
{
}

/// The log is JSON exactly where the configuration says so.
pub proof fn law_log_format(d: Daemon, f: LogFormat)
    requires
        call_ensures(Daemon::log_format, (&d,), f),
    ensures
        f == LogFormat::Json <==> d.config.daemon.log_format@ == "json"@,
{
}

} // verus!
