//! The command line of the terminal and desktop programs.

use vstd::prelude::*;

use crate::shell::string_views;
use crate::text::{decimal, push_decimal, string_of};

verus! {

/// The options of `autotun`.
#[derive(Debug, Clone, PartialEq, Eq)]
pub struct Cli {
    /// SSH destination, for example user@server or an SSH config alias.
    pub destination: Option<String>,
    pub command: Option<Command>,
    /// Local listening ports to expose on the remote host with -R.
    pub reverse_ports: Vec<u16>,
    /// Extra arguments passed when the master SSH connection is started.
    pub ssh_args: Vec<String>,
    /// Include listeners bound only to remote loopback.
    pub include_loopback: bool,
    /// Discover ports but do not forward them automatically.
    pub no_auto_forward: bool,
    /// Seconds between remote listener scans.
    pub interval: u64,
    /// Open the desktop GUI instead of the TUI.
    pub gui: bool,
}

/// The subcommands of `autotun`.
#[derive(Debug, Clone, PartialEq, Eq)]
pub enum Command {
    /// Upload the local clipboard image to the remote host and copy the path.
    Clip {
        /// SSH destination (defaults to the last autotun session).
        destination: Option<String>,
    },
}

/// `-R <port>` for each port.
pub open spec fn reverse_flags(ports: Seq<u16>) -> Seq<Seq<char>>
    decreases ports.len(),
{
    if ports.len() == 0 {
        seq![]
    } else {
        reverse_flags(ports.drop_last()) + seq!["-R"@, decimal(ports.last() as nat)]
    }
}

/// `--ssh-arg <arg>` for each argument.
pub open spec fn ssh_arg_flags(args: Seq<Seq<char>>) -> Seq<Seq<char>>
    decreases args.len(),
{
    if args.len() == 0 {
        seq![]
    } else {
        ssh_arg_flags(args.drop_last()) + seq!["--ssh-arg"@, args.last()]
    }
}

/// The arguments that hand the same options to the desktop program.
pub open spec fn gui_args_text(cli: Cli) -> Seq<Seq<char>> {
    (match cli.destination {
        Some(d) => seq![d@],
        None => seq![],
    }) + reverse_flags(cli.reverse_ports@) + ssh_arg_flags(string_views(cli.ssh_args@)) + seq![
        "--include-loopback"@,
        if cli.include_loopback {
            "true"@
        } else {
            "false"@
        },
    ] + (if cli.no_auto_forward {
        seq!["--no-auto-forward"@]
    } else {
        seq![]
    }) + seq!["--interval"@, decimal(cli.interval as nat)]
}

/// The arguments of `autotun-gui` that carry over this command line's options.
pub fn gui_binary_args(cli: &Cli) -> (args: Vec<String>)
    ensures
        string_views(args@) == gui_args_text(*cli),
{
    let mut args: Vec<String> = Vec::new();
    match &cli.destination {
        Some(d) => args.push(d.clone()),
        None => {},
    }
    let ghost head = string_views(args@);
    assert(head =~= match cli.destination {
        Some(d) => seq![d@],
        None => seq![],
    });
    let mut i: usize = 0;
    while i < cli.reverse_ports.len()
        invariant
            i <= cli.reverse_ports@.len(),
            string_views(args@) == head + reverse_flags(cli.reverse_ports@.take(i as int)),
        decreases cli.reverse_ports@.len() - i,
    {
        let ghost before = string_views(args@);
        args.push("-R".to_owned());
        let mut digits: Vec<char> = Vec::new();
        push_decimal(&mut digits, cli.reverse_ports[i] as u128);
        args.push(string_of(&digits));
        assert(cli.reverse_ports@.take(i + 1).drop_last() == cli.reverse_ports@.take(i as int));
        assert(string_views(args@) =~= before + seq!["-R"@, decimal(cli.reverse_ports@[i as int] as nat)]);
        i = i + 1;
    }
    assert(cli.reverse_ports@.take(cli.reverse_ports@.len() as int) == cli.reverse_ports@);
    let ghost mid = string_views(args@);
    let ghost sv = string_views(cli.ssh_args@);
    let mut k: usize = 0;
    while k < cli.ssh_args.len()
        invariant
            k <= cli.ssh_args@.len(),
            sv == string_views(cli.ssh_args@),
            string_views(args@) == mid + ssh_arg_flags(sv.take(k as int)),
        decreases cli.ssh_args@.len() - k,
    {
        let ghost before = string_views(args@);
        args.push("--ssh-arg".to_owned());
        args.push(cli.ssh_args[k].clone());
        assert(sv.take(k + 1).drop_last() == sv.take(k as int));
        assert(sv.take(k + 1).last() == cli.ssh_args@[k as int]@);
        assert(string_views(args@) =~= before + seq!["--ssh-arg"@, cli.ssh_args@[k as int]@]);
        k = k + 1;
    }
    assert(sv.take(cli.ssh_args@.len() as int) == sv);
    let ghost before = string_views(args@);
    args.push("--include-loopback".to_owned());
    args.push(
        if cli.include_loopback {
            "true".to_owned()
        } else {
            "false".to_owned()
        },
    );
    if cli.no_auto_forward {
        args.push("--no-auto-forward".to_owned());
    }
    args.push("--interval".to_owned());
    let mut digits: Vec<char> = Vec::new();
    push_decimal(&mut digits, cli.interval as u128);
    args.push(string_of(&digits));
    assert(string_views(args@) =~= gui_args_text(*cli));
    args
}

} // verus!
