//! The OpenSSH command lines of a session: the ControlMaster, forwards through
//! its control socket, and the remote listener scan.

use vstd::prelude::*;

use crate::ports::{listener_table, listener_views, lists_table, parse_ss_listeners, ss_entries, Direction, RemoteListener};
use crate::shell::{login_shell_command, login_shell_text, string_views};
use crate::text::{chars_of, decimal, lossy_text, push_decimal, push_str, segments, string_of, utf8_lossy};

verus! {

/// A session's destination and control socket, as other programs reach it.
#[derive(Clone, Debug, PartialEq, Eq)]
pub struct SshControl {
    destination: String,
    socket: String,
}

impl SshControl {
    /// The control of the session to `destination` on `socket`.
    pub fn new(destination: String, socket: String) -> (c: SshControl)
        ensures
            c.destination_text() == destination@,
            c.socket_text() == socket@,
    {
        SshControl { destination, socket }
    }

    /// The destination's text.
    pub closed spec fn destination_text(&self) -> Seq<char> {
        self.destination@
    }

    /// The socket path's text.
    pub closed spec fn socket_text(&self) -> Seq<char> {
        self.socket@
    }

    /// The SSH destination.
    pub fn destination(&self) -> (d: &str)
        ensures
            d@ == self.destination_text(),
    {
        self.destination.as_str()
    }

    /// The control socket path.
    pub fn socket(&self) -> (s: &str)
        ensures
            s@ == self.socket_text(),
    {
        self.socket.as_str()
    }
}

/// The OpenSSH flag of a forward's direction.
pub open spec fn flag_text(direction: Direction) -> Seq<char> {
    match direction {
        Direction::Local => "-L"@,
        Direction::Reverse => "-R"@,
    }
}

/// The OpenSSH flag of a forward's direction: `-L` or `-R`.
pub fn forward_flag(direction: Direction) -> (flag: &'static str)
    ensures
        flag@ == flag_text(direction),
{
    match direction {
        Direction::Local => "-L",
        Direction::Reverse => "-R",
    }
}

/// A forward's specification: both ends on loopback.
pub open spec fn spec_text(bind: u16, source: u16) -> Seq<char> {
    "127.0.0.1:"@ + decimal(bind as nat) + ":127.0.0.1:"@ + decimal(source as nat)
}

/// The specification `127.0.0.1:<bind>:127.0.0.1:<source>`: generated
/// forwards listen on loopback only.
pub fn forward_spec(bind: u16, source: u16) -> (spec: String)
    ensures
        spec@ == spec_text(bind, source),
{
    let mut out = chars_of("127.0.0.1:");
    push_decimal(&mut out, bind as u128);
    push_str(&mut out, ":127.0.0.1:");
    push_decimal(&mut out, source as u128);
    string_of(&out)
}

/// The arguments after `ssh -S <socket>` that ask the master to start or stop
/// a forward (`operation` is `forward` or `cancel`).
pub open spec fn control_forward_text(operation: Seq<char>, direction: Direction, bind: u16, source: u16, destination: Seq<char>) -> Seq<Seq<char>> {
    seq!["-O"@, operation, flag_text(direction), spec_text(bind, source), destination]
}

/// The arguments after `ssh -S <socket>` that start a forward.
pub fn forward_args(direction: Direction, bind: u16, source: u16, destination: &str) -> (args: Vec<String>)
    ensures
        string_views(args@) == control_forward_text("forward"@, direction, bind, source, destination@),
{
    let mut args: Vec<String> = Vec::new();
    args.push("-O".to_owned());
    args.push("forward".to_owned());
    args.push(forward_flag(direction).to_owned());
    args.push(forward_spec(bind, source));
    args.push(destination.to_owned());
    assert(string_views(args@) =~= control_forward_text("forward"@, direction, bind, source, destination@));
    args
}

/// The arguments after `ssh -S <socket>` that cancel a forward.
pub fn cancel_args(direction: Direction, bind: u16, source: u16, destination: &str) -> (args: Vec<String>)
    ensures
        string_views(args@) == control_forward_text("cancel"@, direction, bind, source, destination@),
{
    let mut args: Vec<String> = Vec::new();
    args.push("-O".to_owned());
    args.push("cancel".to_owned());
    args.push(forward_flag(direction).to_owned());
    args.push(forward_spec(bind, source));
    args.push(destination.to_owned());
    assert(string_views(args@) =~= control_forward_text("cancel"@, direction, bind, source, destination@));
    args
}

/// The error of a forward the control master refused.
pub open spec fn rejected_text(direction: Direction, bind: u16, source: u16) -> Seq<char> {
    "ssh rejected "@ + flag_text(direction) + " "@ + spec_text(bind, source)
}

/// The error of a forward the control master refused
/// (`ssh rejected -L 127.0.0.1:3001:127.0.0.1:3000`).
pub fn rejected_message(direction: Direction, bind: u16, source: u16) -> (m: String)
    ensures
        m@ == rejected_text(direction, bind, source),
{
    let mut out = chars_of("ssh rejected ");
    push_str(&mut out, forward_flag(direction));
    push_str(&mut out, " ");
    push_str(&mut out, forward_spec(bind, source).as_str());
    string_of(&out)
}

/// The error of a cancel the control master refused.
pub open spec fn uncancelled_text(direction: Direction, bind: u16, source: u16) -> Seq<char> {
    "ssh could not cancel "@ + flag_text(direction) + " "@ + spec_text(bind, source)
}

/// The error of a cancel the control master refused
/// (`ssh could not cancel -L 127.0.0.1:3001:127.0.0.1:3000`).
pub fn uncancelled_message(direction: Direction, bind: u16, source: u16) -> (m: String)
    ensures
        m@ == uncancelled_text(direction, bind, source),
{
    let mut out = chars_of("ssh could not cancel ");
    push_str(&mut out, forward_flag(direction));
    push_str(&mut out, " ");
    push_str(&mut out, forward_spec(bind, source).as_str());
    string_of(&out)
}

/// The arguments after `ssh -S <socket>` of a master command (`check`,
/// `exit`).
pub fn master_command_args(operation: &str, destination: &str) -> (args: Vec<String>)
    ensures
        string_views(args@) == seq!["-O"@, operation@, destination@],
{
    let mut args: Vec<String> = Vec::new();
    args.push("-O".to_owned());
    args.push(operation.to_owned());
    args.push(destination.to_owned());
    assert(string_views(args@) =~= seq!["-O"@, operation@, destination@]);
    args
}

/// The options of the master connection.
pub open spec fn master_options() -> Seq<Seq<char>> {
    seq![
        "-o"@,
        "ControlPersist=yes"@,
        "-o"@,
        "ExitOnForwardFailure=yes"@,
        "-o"@,
        "ConnectTimeout=10"@,
        "-o"@,
        "ServerAliveInterval=10"@,
        "-o"@,
        "ServerAliveCountMax=3"@,
    ]
}

/// The arguments after `ssh -M -S <socket>` that start the master
/// connection in the background; `batch_mode` forbids prompts (used when
/// reconnecting unattended).
pub open spec fn master_args_text(destination: Seq<char>, extra: Seq<Seq<char>>, batch_mode: bool) -> Seq<Seq<char>> {
    master_options() + (if batch_mode {
        seq!["-o"@, "BatchMode=yes"@]
    } else {
        seq![]
    }) + extra + seq!["-fnNT"@, destination]
}

/// The arguments after `ssh -M -S <socket>` that start the master connection.
pub fn master_args(destination: &str, extra_args: &Vec<String>, batch_mode: bool) -> (args: Vec<String>)
    ensures
        string_views(args@) == master_args_text(destination@, string_views(extra_args@), batch_mode),
{
    let mut args: Vec<String> = Vec::new();
    args.push("-o".to_owned());
    args.push("ControlPersist=yes".to_owned());
    args.push("-o".to_owned());
    args.push("ExitOnForwardFailure=yes".to_owned());
    args.push("-o".to_owned());
    args.push("ConnectTimeout=10".to_owned());
    args.push("-o".to_owned());
    args.push("ServerAliveInterval=10".to_owned());
    args.push("-o".to_owned());
    args.push("ServerAliveCountMax=3".to_owned());
    assert(string_views(args@) =~= master_options());
    if batch_mode {
        args.push("-o".to_owned());
        args.push("BatchMode=yes".to_owned());
    }
    let ghost head = string_views(args@);
    assert(head =~= master_options() + (if batch_mode {
        seq!["-o"@, "BatchMode=yes"@]
    } else {
        seq![]
    }));
    let mut i: usize = 0;
    while i < extra_args.len()
        invariant
            i <= extra_args@.len(),
            string_views(args@) == head + string_views(extra_args@).take(i as int),
        decreases extra_args@.len() - i,
    {
        let ghost before = string_views(args@);
        args.push(extra_args[i].clone());
        assert(string_views(args@) =~= before.push(extra_args@[i as int]@));
        assert(string_views(extra_args@).take(i + 1) =~= string_views(extra_args@).take(i as int).push(
            extra_args@[i as int]@,
        ));
        i = i + 1;
    }
    assert(string_views(extra_args@).take(extra_args@.len() as int) == string_views(extra_args@));
    let ghost before = string_views(args@);
    args.push("-fnNT".to_owned());
    args.push(destination.to_owned());
    assert(string_views(args@) =~= before + seq!["-fnNT"@, destination@]);
    args
}

/// The remote script that lists TCP listeners: `ss` with process names, `ss`
/// without, then `netstat` the same way; exit 127 without either tool.
pub open spec fn discover_script() -> Seq<char> {
    "if command -v ss >/dev/null 2>&1; then ss -H -lntp 2>/dev/null || ss -H -lnt; elif command -v netstat >/dev/null 2>&1; then netstat -lntp 2>/dev/null || netstat -lnt 2>/dev/null; else exit 127; fi"@
}

/// The remote command line of a listener scan.
pub fn discover_command() -> (command: String)
    ensures
        command@ == login_shell_text(discover_script()),
{
    login_shell_command(
        "if command -v ss >/dev/null 2>&1; then ss -H -lntp 2>/dev/null || ss -H -lnt; elif command -v netstat >/dev/null 2>&1; then netstat -lntp 2>/dev/null || netstat -lnt 2>/dev/null; else exit 127; fi",
    )
}

/// The outcome of a listener scan: the listeners in its output when the
/// remote command succeeded, and an error naming the tools it needs otherwise.
pub fn discover_outcome(success: bool, stdout: &[u8], include_loopback: bool) -> (r: Result<Vec<RemoteListener>, String>)
    ensures
        !success ==> (r matches Err(m) && m@ == "remote host needs ss (iproute2) or netstat"@),
        success ==> (r matches Ok(ls) && lists_table(
            listener_views(ls@),
            listener_table(ss_entries(segments(utf8_lossy(stdout@), '\n'), include_loopback)),
        )),
{
    if !success {
        return Err("remote host needs ss (iproute2) or netstat".to_owned());
    }
    let text = lossy_text(stdout);
    Ok(parse_ss_listeners(text.as_str(), include_loopback))
}

} // verus!
