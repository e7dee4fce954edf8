//! The file that names the daemon's process, and giving up privileges.

use vstd::prelude::*;
use vstd::string::*;

use crate::scan::{
    digit_value, digits_numeral, is_space, numeral, parse_numeral, trim, trim_back, trim_front,
    trimmed, Numeral,
};
use crate::text::{chars_of, decimal, decimal_string, digit_char};

verus! {

/// What can go wrong with the process file or with privileges.
#[derive(Debug)]
pub enum PrivilegeError {
    /// A file could not be read, written or removed.
    Io(std::io::Error),
    /// The process that the file names is running.
    PidFileStale { path: String, pid: u32 },
    /// Privileges could not be given up.
    DropFailed(String),
}

impl PrivilegeError {
    /// The text of the error. That of an I/O error is a fixed prefix and the
    /// text that the error gives of itself.
    pub fn message(&self) -> (s: String)
        ensures
            match *self {
                PrivilegeError::Io(e) => exists|t: String|
                    #![auto]
                    to_string_from_display_ensures::<std::io::Error>(&e, t) && s@
                        == "I/O error: "@ + t@,
                PrivilegeError::PidFileStale { path, pid } => s@ == "PID file "@ + path@
                    + " exists and process "@ + decimal(pid as nat) + " is still running"@,
                PrivilegeError::DropFailed(t) => s@ == "privilege drop failed: "@ + t@,
            },
    {
        match self {
            PrivilegeError::Io(e) => {
                let t = e.to_string();
                "I/O error: ".to_owned().concat(t.as_str())
            },
            PrivilegeError::PidFileStale { path, pid } => "PID file ".to_owned().concat(
                path.as_str(),
            ).concat(" exists and process ").concat(decimal_string(*pid as u64).as_str()).concat(
                " is still running",
            ),
            PrivilegeError::DropFailed(t) => "privilege drop failed: ".to_owned().concat(
                t.as_str(),
            ),
        }
    }
}

/// A process file, as far as it could be read.
#[derive(Debug)]
pub enum PidFile {
    Absent,
    Unreadable,
    Text(String),
}

/// The process that a process file names.
pub open spec fn named_process(file: PidFile) -> Option<u32> {
    match file {
        PidFile::Text(t) => match numeral(trimmed(t@), 10, 0xffff_ffff) {
            Numeral::Value(v) => Some(v as u32),
            _ => None,
        },
        _ => None,
    }
}

/// The process that a process file names.
pub fn process_named(file: &PidFile) -> (r: Option<u32>)
    ensures
        r == named_process(*file),
{
    match file {
        PidFile::Text(t) => {
            let word = trim(&chars_of(t.as_str()));
            proof {
                crate::scan::lemma_numeral_bound(word@, 10, 0xffff_ffff);
            }
            match parse_numeral(&word, 10, 0xffff_ffff) {
                Numeral::Value(v) => Some(v as u32),
                _ => None,
            }
        },
        _ => None,
    }
}

/// Whether a process file may be created, and whether one that is there is
/// removed first. `running` says whether the process that it names is running;
/// such a file is left alone.
pub fn create_pid_file(path: &str, file: &PidFile, running: bool) -> (r: Result<
    bool,
    PrivilegeError,
>)
    ensures
        match named_process(*file) {
            Some(pid) => if running {
                r matches Err(PrivilegeError::PidFileStale { path: p, pid: n }) && p@ == path@ && n
                    == pid
            } else {
                r == Ok::<bool, PrivilegeError>(true)
            },
            None => r == Ok::<bool, PrivilegeError>(!(file is Absent)),
        },
{
    if let Some(pid) = process_named(file) {
        if running {
            return Err(PrivilegeError::PidFileStale { path: path.to_owned(), pid });
        }
    }
    match file {
        PidFile::Absent => Ok(false),
        _ => Ok(true),
    }
}

/// What a process file of a process holds.
pub open spec fn pid_text(pid: u32) -> Seq<char> {
    decimal(pid as nat) + "\n"@
}

/// What a process file of a process holds.
pub fn pid_file_text(pid: u32) -> (s: String)
    ensures
        s@ == pid_text(pid),
{
    decimal_string(pid as u64).concat("\n")
}

/// Whether a process file is removed by a process: only where it names that
/// process.
pub fn remove_pid_file(file: &PidFile, own: u32) -> (b: bool)
    ensures
        b == (named_process(*file) == Some(own)),
{
    match process_named(file) {
        Some(pid) => pid == own,
        None => false,
    }
}

proof fn lemma_digit(d: nat)
    requires
        d < 10,
    ensures
        digit_value(digit_char(d), 10) == Some(d),
        !is_space(digit_char(d)),
        digit_char(d) != '+',
        digit_char(d) != '-',
{
}

/// A number is what its decimal digits stand for.
pub proof fn lemma_decimal_numeral(n: nat, max: nat)
    requires
        n <= max <= u64::MAX,
    ensures
        decimal(n).len() >= 1,
        digits_numeral(decimal(n), 10, max) == Numeral::Value(n as u64),
        forall|i: int|
            0 <= i < decimal(n).len() ==> !is_space(#[trigger] decimal(n)[i]) && decimal(n)[i]
                != '+' && decimal(n)[i] != '-',
    decreases n,
{
    let s = decimal(n);
    if n < 10 {
        lemma_digit(n);
        assert(s.drop_last() =~= Seq::<char>::empty());
        assert(digits_numeral(s.drop_last(), 10, max) == Numeral::Value(0));
        assert(0 * 10 + n == n);
    } else {
        lemma_decimal_numeral(n / 10, max);
        lemma_digit(n % 10);
        assert(s.drop_last() =~= decimal(n / 10));
        assert(s.last() == digit_char(n % 10));
        assert((n / 10) * 10 + n % 10 == n);
    }
}

proof fn lemma_trimmed_line(s: Seq<char>)
    requires
        s.len() >= 1,
        forall|i: int| 0 <= i < s.len() ==> !is_space(#[trigger] s[i]),
    ensures
        trimmed(s + "\n"@) == s,
{
    reveal_strlit("\n");
    let t = s + "\n"@;
    assert(t[0] == s[0]);
    assert(trim_front(t) == t);
    assert(is_space('\n'));
    assert(t.last() == '\n');
    assert(t.drop_last() =~= s);
    assert(trim_back(s) == s);
}

/// A process removes the file that it has written, and no other process does.
pub proof fn law_own_pid_file(pid: u32, text: String)
    requires
        text@ == pid_text(pid),
    ensures
        named_process(PidFile::Text(text)) == Some(pid),
{
    lemma_decimal_numeral(pid as nat, 0xffff_ffff);
    lemma_trimmed_line(decimal(pid as nat));
    let s = decimal(pid as nat);
    assert(s[0] != '+' && s[0] != '-');
}

/// What looking up a user or a group gave.
#[derive(Debug)]
pub enum Lookup {
    Found(u32),
    Missing,
    /// It could not be looked up, for this reason.
    Failed(String),
}

/// What is done next to give up privileges: the group is given up before the
/// user, who may do so no more afterwards.
#[derive(Debug, Clone, Copy, PartialEq, Eq, Structural)]
pub enum DropStep {
    LookUpGroup,
    SetGroup(u32),
    LookUpUser,
    SetUser(u32),
    Done,
}

/// What came of the step before.
#[derive(Debug)]
pub enum DropEvent {
    LookedUp(Lookup),
    /// The number was set, or else the reason why not.
    Changed(Result<(), String>),
}

/// What is done next to give up privileges. A group or a user that cannot be
/// found is passed over; one that cannot be set ends it with an error.
pub fn drop_privileges(at: DropStep, event: &DropEvent) -> (r: Result<DropStep, PrivilegeError>)
    ensures
        match (at, *event) {
            (DropStep::LookUpGroup, DropEvent::LookedUp(Lookup::Found(gid))) => r == Ok::<
                DropStep,
                PrivilegeError,
            >(DropStep::SetGroup(gid)),
            (DropStep::LookUpGroup, _) => r == Ok::<DropStep, PrivilegeError>(
                DropStep::LookUpUser,
            ),
            (DropStep::SetGroup(gid), DropEvent::Changed(Err(e))) => r matches Err(
                PrivilegeError::DropFailed(t),
            ) && t@ == "setgid("@ + decimal(gid as nat) + "): "@ + e@,
            (DropStep::SetGroup(_), _) => r == Ok::<DropStep, PrivilegeError>(
                DropStep::LookUpUser,
            ),
            (DropStep::LookUpUser, DropEvent::LookedUp(Lookup::Found(uid))) => r == Ok::<
                DropStep,
                PrivilegeError,
            >(DropStep::SetUser(uid)),
            (DropStep::LookUpUser, _) => r == Ok::<DropStep, PrivilegeError>(DropStep::Done),
            (DropStep::SetUser(uid), DropEvent::Changed(Err(e))) => r matches Err(
                PrivilegeError::DropFailed(t),
            ) && t@ == "setuid("@ + decimal(uid as nat) + "): "@ + e@,
            (DropStep::SetUser(_), _) => r == Ok::<DropStep, PrivilegeError>(DropStep::Done),
            (DropStep::Done, _) => r == Ok::<DropStep, PrivilegeError>(DropStep::Done),
        },
{
    match (at, event) {
        (DropStep::LookUpGroup, DropEvent::LookedUp(Lookup::Found(gid))) => Ok(
            DropStep::SetGroup(*gid),
        ),
        (DropStep::LookUpGroup, _) => Ok(DropStep::LookUpUser),
        (DropStep::SetGroup(gid), DropEvent::Changed(Err(e))) => Err(
            PrivilegeError::DropFailed(
                "setgid(".to_owned().concat(decimal_string(gid as u64).as_str()).concat(
                    "): ",
                ).concat(e.as_str()),
            ),
        ),
        (DropStep::SetGroup(_), _) => Ok(DropStep::LookUpUser),
        (DropStep::LookUpUser, DropEvent::LookedUp(Lookup::Found(uid))) => Ok(
            DropStep::SetUser(*uid),
        ),
        (DropStep::LookUpUser, _) => Ok(DropStep::Done),
        (DropStep::SetUser(uid), DropEvent::Changed(Err(e))) => Err(
            PrivilegeError::DropFailed(
                "setuid(".to_owned().concat(decimal_string(uid as u64).as_str()).concat(
                    "): ",
                ).concat(e.as_str()),
            ),
        ),
        (DropStep::SetUser(_), _) => Ok(DropStep::Done),
        (DropStep::Done, _) => Ok(DropStep::Done),
    }
}

/// The file that a process has written is removed by that process and by no
/// other, and keeps another from being created while the process runs.
pub proof fn law_file_of_a_process(
    pid: u32,
    text: String,
    own: u32,
    path: &str,
    running: bool,
    removed: bool,
    created: Result<bool, PrivilegeError>,
)
    requires
        call_ensures(pid_file_text, (pid,), text),
        call_ensures(remove_pid_file, (&PidFile::Text(text), own), removed),
        call_ensures(create_pid_file, (path, &PidFile::Text(text), running), created),
    ensures
        removed <==> own == pid,
        created is Ok <==> !running,
        created matches Ok(replace) ==> replace,
        created matches Err(e) ==> (e matches PrivilegeError::PidFileStale { path: p, pid: n }
            && p@ == path@ && n == pid),
{
    law_own_pid_file(pid, text);
}

/// Where there is no process file, one is created and none is removed first; one
/// that names no process is replaced.
pub proof fn law_file_of_no_process(
    path: &str,
    file: PidFile,
    running: bool,
    r: Result<bool, PrivilegeError>,
    own: u32,
    removed: bool,
)
    requires
        call_ensures(create_pid_file, (path, &file, running), r),
        call_ensures(remove_pid_file, (&file, own), removed),
        file is Absent || file is Unreadable,
    ensures
        file is Absent ==> r == Ok::<bool, PrivilegeError>(false),
        file is Unreadable ==> r == Ok::<bool, PrivilegeError>(true),
        !removed,
{
}

/// Privileges are given up in order: the group that was found is set, then the
/// user is looked up, whatever came of the group but a failure to set it, then
/// the user that was found is set, and then it is done.
pub proof fn law_drop_order(
    at: DropStep,
    event: DropEvent,
    r: Result<DropStep, PrivilegeError>,
)
    requires
        call_ensures(drop_privileges, (at, &event), r),
    ensures
        r matches Ok(DropStep::SetGroup(gid)) ==> at == DropStep::LookUpGroup && event
            == DropEvent::LookedUp(Lookup::Found(gid)),
        r matches Ok(DropStep::SetUser(uid)) ==> at == DropStep::LookUpUser && event
            == DropEvent::LookedUp(Lookup::Found(uid)),
        at == DropStep::LookUpGroup ==> (r matches Ok(next) && (next is SetGroup || next
            == DropStep::LookUpUser)),
        at == DropStep::LookUpUser ==> (r matches Ok(next) && (next is SetUser || next
            == DropStep::Done)),
        r is Err <==> (at is SetGroup || at is SetUser) && (event matches DropEvent::Changed(c)
            && c is Err),
        at is SetGroup && r is Ok ==> r == Ok::<DropStep, PrivilegeError>(DropStep::LookUpUser),
        at is SetUser && r is Ok ==> r == Ok::<DropStep, PrivilegeError>(DropStep::Done),
        r matches Ok(next) ==> next != DropStep::LookUpGroup,
{
}

} // verus!
