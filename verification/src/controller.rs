//! Deciding what to do about the VPN client process: whether one is
//! running, what to report of it, and which command starts or ends it.

use crate::error::VpnError;
use crate::paths::CONFIG_PATH;
use crate::text::{joined, contains, decimal, str_contains, texts, to_decimal};
use crate::utils::{find_config, located, Proto};
use vstd::prelude::*;
use vstd::string::*;

verus! {

/// A program to run and the arguments to hand it.
#[derive(Debug)]
pub struct Command {
    pub program: String,
    pub args: Vec<String>,
}

/// One line of the process table.
#[derive(Debug)]
pub struct ProcessInfo {
    /// The process identifier.
    pub pid: u32,
    /// The name of the process.
    pub name: String,
    /// For how many seconds the process has been running.
    pub run_time: u64,
}

/// The name of a VPN client process: one that holds `openvpn`.
pub open spec fn is_openvpn(name: Seq<char>) -> bool {
    contains(name, "openvpn"@)
}

/// Some process of the table is a VPN client.
pub open spec fn running(table: Seq<ProcessInfo>) -> bool {
    exists|i: int| 0 <= i < table.len() && is_openvpn((#[trigger] table[i]).name@)
}

/// Process `i` is the first VPN client of the table.
pub open spec fn is_first_openvpn(table: Seq<ProcessInfo>, i: int) -> bool {
    &&& 0 <= i < table.len()
    &&& is_openvpn(table[i].name@)
    &&& forall|k: int| 0 <= k < i ==> !is_openvpn((#[trigger] table[k]).name@)
}

/// The position of the first VPN client in the process table, if there is
/// one.
pub fn find_openvpn(processes: &Vec<ProcessInfo>) -> (r: Option<usize>)
    ensures
        match r {
            Some(i) => is_first_openvpn(processes@, i as int),
            None => !running(processes@),
        },
{
    let mut i: usize = 0;
    while i < processes.len()
        invariant
            i <= processes.len(),
            forall|k: int| 0 <= k < i ==> !is_openvpn((#[trigger] processes@[k]).name@),
        decreases processes.len() - i,
    {
        if str_contains(processes[i].name.as_str(), "openvpn") {
            return Some(i);
        }
        i = i + 1;
    }
    None
}

/// Whether a VPN client is running: whether the name of some process in
/// the table holds `openvpn`.
pub fn is_running(processes: &Vec<ProcessInfo>) -> (r: bool)
    ensures
        r == running(processes@),
{
    find_openvpn(processes).is_some()
}

/// Whether a VPN client is running does not depend on the processes that
/// are none: with any number of them put anywhere into the table, the
/// answer is the same.
pub proof fn lemma_unrelated_processes(
    table: Seq<ProcessInfo>,
    others: Seq<ProcessInfo>,
    at: int,
)
    requires
        0 <= at <= table.len(),
        forall|k: int| 0 <= k < others.len() ==> !is_openvpn((#[trigger] others[k]).name@),
    ensures
        running(table.subrange(0, at) + others + table.subrange(at, table.len() as int))
            == running(table),
{
    let mixed = table.subrange(0, at) + others + table.subrange(at, table.len() as int);
    if running(table) {
        let i = choose|i: int| 0 <= i < table.len() && is_openvpn((#[trigger] table[i]).name@);
        if i < at {
            assert(mixed[i] == table[i]);
        } else {
            assert(mixed[i + others.len()] == table[i]);
        }
    }
    if running(mixed) {
        let i = choose|i: int| 0 <= i < mixed.len() && is_openvpn((#[trigger] mixed[i]).name@);
        if i < at {
            assert(mixed[i] == table[i]);
        } else if i < at + others.len() {
            assert(mixed[i] == others[i - at]);
        } else {
            assert(mixed[i] == table[i - others.len()]);
        }
    }
}

/// `true` or `false`, as printed.
pub open spec fn bool_text(b: bool) -> Seq<char> {
    if b {
        "true"@
    } else {
        "false"@
    }
}

/// The command that asks for this machine's public address.
pub fn ip_command() -> (r: Command)
    ensures
        r.program@ == "curl"@,
        texts(r.args@) == seq!["https://ipinfo.io/ip"@],
{
    let mut args: Vec<String> = Vec::new();
    args.push(String::from_str("https://ipinfo.io/ip"));
    assert(texts(args@) =~= seq!["https://ipinfo.io/ip"@]);
    Command { program: String::from_str("curl"), args }
}

/// The status report, line by line.
///
/// The first line says whether a VPN client is running, the second gives
/// the public address as `ip` holds it. Where a client is running, two
/// more lines give the identifier of the first such process in the table
/// and the seconds it has run.
pub fn status(processes: &Vec<ProcessInfo>, ip: &str) -> (lines: Vec<String>)
    ensures
        lines.len() == if running(processes@) {
            4int
        } else {
            2int
        },
        lines[0]@ == "Connected: "@ + bool_text(running(processes@)),
        lines[1]@ == "IP Addr: "@ + ip@,
        forall|i: int|
            is_first_openvpn(processes@, i) ==> lines[2]@ == "PID: "@ + decimal(
                processes[i].pid as nat,
            ) && lines[3]@ == "Runtime: "@ + decimal(processes[i].run_time as nat) + "s"@,
{
    let found = find_openvpn(processes);
    let mut lines: Vec<String> = Vec::new();
    lines.push(
        joined(
            "Connected: ",
            if found.is_some() {
                "true"
            } else {
                "false"
            },
        ),
    );
    lines.push(joined("IP Addr: ", ip));
    match found {
        Some(at) => {
            let process = &processes[at];
            lines.push(joined("PID: ", to_decimal(process.pid as u64).as_str()));
            let mut runtime = joined("Runtime: ", to_decimal(process.run_time).as_str());
            runtime.append("s");
            lines.push(runtime);
            assert forall|i: int| is_first_openvpn(processes@, i) implies i == at by {
                if i < at {
                    assert(!is_openvpn(processes@[i].name@));
                }
                if at < i {
                    assert(!is_openvpn(processes@[at as int].name@));
                }
            }
        },
        None => {},
    }
    lines
}

/// What a command of the operator leads to: at most one program to run,
/// and the line to print once it has run.
#[derive(Debug)]
pub struct Outcome {
    pub command: Option<Command>,
    pub message: String,
}

/// Ends the connection.
///
/// Where no VPN client is running nothing is run and the operator is told
/// so. Otherwise every process named `openvpn` is to be terminated, and
/// the operator is told that the connection is closed.
pub fn disconnect(processes: &Vec<ProcessInfo>) -> (r: Outcome)
    ensures
        !running(processes@) ==> r.command is None && r.message@
            == "You are not connected to FastVPN Server."@,
        running(processes@) ==> r.message@ == "Disconnected from FastVPN Server."@ && (
        r.command matches Some(c) && c.program@ == "killall"@ && texts(c.args@)
            == seq!["openvpn"@]),
{
    if !is_running(processes) {
        return Outcome {
            command: None,
            message: String::from_str("You are not connected to FastVPN Server."),
        };
    }
    let mut args: Vec<String> = Vec::new();
    args.push(String::from_str("openvpn"));
    assert(texts(args@) =~= seq!["openvpn"@]);
    Outcome {
        command: Some(Command { program: String::from_str("killall"), args }),
        message: String::from_str("Disconnected from FastVPN Server."),
    }
}

/// The arguments that start the client as a daemon on the config at
/// `path`, with the credentials file.
pub open spec fn launch_args(path: Seq<char>) -> Seq<Seq<char>> {
    seq!["--config"@, path, "--daemon"@, "--auth-user-pass"@, CONFIG_PATH@]
}

/// What the locator finds in a listing that may be missing.
pub open spec fn located_in(city: Seq<char>, proto: Proto, listing: Option<&Vec<String>>) -> Option<
    Seq<char>,
> {
    match listing {
        Some(files) => located(city, proto, texts(files@)),
        None => None,
    }
}

/// Opens a connection to the server of a city.
///
/// Where a VPN client is already running nothing is run and the operator
/// is told to disconnect first. Otherwise the config for `city` is looked
/// up in `listing`, the names of the files in the directory of `proto`.
/// Where one is found, the client is to be started as a daemon on it, and
/// the operator is told that the connection is open; whether the tunnel
/// comes up is not for this function to know. Where none is found nothing
/// is run and the operator is told so.
pub fn connect(
    processes: &Vec<ProcessInfo>,
    city: &str,
    proto: Proto,
    listing: Option<&Vec<String>>,
) -> (r: Outcome)
    ensures
        running(processes@) ==> r.command is None && r.message@
            == "Already connected to FastVPN Server. Disconnect first."@,
        !running(processes@) ==> match located_in(city@, proto, listing) {
            Some(path) => r.message@ == "Connected to FastVPN Server."@ && (
            r.command matches Some(c) && c.program@ == "openvpn"@ && texts(c.args@) == launch_args(
                path,
            )),
            None => r.command is None && r.message@ == "Could not find config for "@ + city@
                + " server."@,
        },
{
    if is_running(processes) {
        return Outcome {
            command: None,
            message: String::from_str("Already connected to FastVPN Server. Disconnect first."),
        };
    }
    match find_config(city, proto, listing) {
        Ok(path) => {
            let ghost place = path@;
            let mut args: Vec<String> = Vec::new();
            args.push(String::from_str("--config"));
            args.push(path);
            args.push(String::from_str("--daemon"));
            args.push(String::from_str("--auth-user-pass"));
            args.push(String::from_str(CONFIG_PATH));
            assert(texts(args@) =~= launch_args(place));
            Outcome {
                command: Some(Command { program: String::from_str("openvpn"), args }),
                message: String::from_str("Connected to FastVPN Server."),
            }
        },
        Err(_) => {
            let mut message = joined("Could not find config for ", city);
            message.append(" server.");
            Outcome { command: None, message }
        },
    }
}

/// What is shown when a program could not be started.
pub open spec fn launch_failure_text(program: Seq<char>, reason: Seq<char>) -> Seq<char> {
    "Could not run "@ + program + ": "@ + reason
}

/// The failure to report when `command` could not be started, `reason`
/// being what the system said of it.
pub fn launch_failure(command: &Command, reason: &str) -> (e: VpnError)
    ensures
        e matches VpnError::ExternalProcess(m) && m@ == launch_failure_text(
            command.program@,
            reason@,
        ),
{
    let mut text = joined("Could not run ", command.program.as_str());
    text.append(": ");
    text.append(reason);
    VpnError::ExternalProcess(text)
}

/// Settles what the operator is told once an outcome has been acted on.
///
/// `failure` is what the system said where the outcome's command could
/// not be started, and `None` where it ran or there was none to run. The
/// outcome's line is shown exactly when nothing failed; a command that
/// could not be started is answered with `ExternalProcess`, and the line
/// that would have reported success is withheld.
pub fn conclude(outcome: &Outcome, failure: Option<&str>) -> (r: Result<String, VpnError>)
    ensures
        match (outcome.command, failure) {
            (Some(c), Some(reason)) => r matches Err(VpnError::ExternalProcess(m)) && m@
                == launch_failure_text(c.program@, reason@),
            _ => r matches Ok(line) && line@ == outcome.message@,
        },
{
    match (&outcome.command, failure) {
        (Some(command), Some(reason)) => Err(launch_failure(command, reason)),
        _ => Ok(outcome.message.clone()),
    }
}

} // verus!
