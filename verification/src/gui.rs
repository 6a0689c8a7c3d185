//! What the desktop interface decides, apart from drawing: form titles, the
//! tunnel filter and status column, the connect form's port and argument
//! lists, and the one-line summary of a remote application's error.

use vstd::prelude::*;

use crate::ports::{opt_text, Direction, Tunnel, TunnelView};
use crate::shell::{shell_words_split, split, string_views};
use crate::cli::Cli;
use crate::ports::tunnel_views;
use crate::remote_app::{info_views, InfoView, RemoteAppInfo, RemoteAppStatus};
use crate::text::{
    join_text, join_words, parse_u64, u64_text,
    chars_of, contains_text, decimal, has_substring, is_whitespace, is_ws, lines, occurs_at,
    matches_at, parse_u16, push_decimal, push_str, split_lines, split_whitespace, string_of, tokens,
    to_lowercase, lowercased, trim, trim_chars, u16_text,
};

verus! {

broadcast use vstd::string::group_string_axioms;

/// The colour scheme the user picked.
#[derive(Debug, Clone, Copy, PartialEq, Eq, Structural)]
pub enum ThemeMode {
    Dark,
    Light,
    /// Follow the system's scheme.
    Auto,
}

impl Default for ThemeMode {
    fn default() -> (m: ThemeMode)
        ensures
            m == ThemeMode::Dark,
    {
        ThemeMode::Dark
    }
}

impl ThemeMode {
    /// Whether to draw dark colours, given whether the system scheme is light.
    pub fn is_dark(self, system_is_light: bool) -> (b: bool)
        ensures
            b == match self {
                ThemeMode::Dark => true,
                ThemeMode::Light => false,
                ThemeMode::Auto => !system_is_light,
            },
    {
        match self {
            ThemeMode::Dark => true,
            ThemeMode::Light => false,
            ThemeMode::Auto => !system_is_light,
        }
    }
}

// ---------------------------------------------------------------------------
// The add / edit form
// ---------------------------------------------------------------------------

/// The add / edit form of the desktop interface.
#[derive(Debug)]
pub struct FormUi {
    pub title: String,
    pub direction: Direction,
    pub source: String,
    pub requested: String,
    pub label: String,
    pub edit_index: Option<usize>,
    pub was_enabled: bool,
}

/// The title of the form.
pub open spec fn form_title(direction: Direction, editing: bool) -> Seq<char> {
    match (editing, direction) {
        (false, Direction::Local) => "Add forward (remote -> local)"@,
        (false, Direction::Reverse) => "Add reverse (local -> remote)"@,
        (true, Direction::Local) => "Edit forward (remote -> local)"@,
        (true, Direction::Reverse) => "Edit reverse (local -> remote)"@,
    }
}

impl FormUi {
    /// An empty form for a new tunnel.
    pub fn new(direction: Direction) -> (f: FormUi)
        ensures
            f.title@ == form_title(direction, false),
            f.direction == direction,
            f.source@.len() == 0 && f.requested@.len() == 0 && f.label@.len() == 0,
            f.edit_index is None,
            !f.was_enabled,
    {
        FormUi {
            title: match direction {
                Direction::Local => "Add forward (remote -> local)".to_owned(),
                Direction::Reverse => "Add reverse (local -> remote)".to_owned(),
            },
            direction,
            source: String::new(),
            requested: String::new(),
            label: String::new(),
            edit_index: None,
            was_enabled: false,
        }
    }

    /// The form filled in from the tunnel at `index`.
    pub fn edit(tunnel: &Tunnel, index: usize) -> (f: FormUi)
        ensures
            f.title@ == form_title(tunnel.direction, true),
            f.direction == tunnel.direction,
            f.source@ == decimal(tunnel.source_port as nat),
            f.requested@ == decimal(tunnel.requested_port as nat),
            f.label@ == tunnel.label@,
            f.edit_index == Some(index),
            f.was_enabled == tunnel.enabled,
    {
        let mut source: Vec<char> = Vec::new();
        push_decimal(&mut source, tunnel.source_port as u128);
        let mut requested: Vec<char> = Vec::new();
        push_decimal(&mut requested, tunnel.requested_port as u128);
        FormUi {
            title: match tunnel.direction {
                Direction::Local => "Edit forward (remote -> local)".to_owned(),
                Direction::Reverse => "Edit reverse (local -> remote)".to_owned(),
            },
            direction: tunnel.direction,
            source: string_of(&source),
            requested: string_of(&requested),
            label: tunnel.label.clone(),
            edit_index: Some(index),
            was_enabled: tunnel.enabled,
        }
    }
}

// ---------------------------------------------------------------------------
// The connect form
// ---------------------------------------------------------------------------

/// Whether a character separates reverse ports: a comma or whitespace.
pub open spec fn is_port_separator(c: char) -> bool {
    c == ',' || is_ws(c)
}

/// Splitting at separators: the pieces finished so far and the one being read.
pub open spec fn port_pieces_acc(s: Seq<char>) -> (Seq<Seq<char>>, Seq<char>)
    decreases s.len(),
{
    if s.len() == 0 {
        (seq![], seq![])
    } else {
        let (done, cur) = port_pieces_acc(s.drop_last());
        if is_port_separator(s.last()) {
            (done.push(cur), seq![])
        } else {
            (done, cur.push(s.last()))
        }
    }
}

/// The pieces of a reverse-port list between separators.
pub open spec fn port_pieces(s: Seq<char>) -> Seq<Seq<char>> {
    let (done, cur) = port_pieces_acc(s);
    done.push(cur)
}

/// The ports of a list of pieces, or the message for the first bad one.
/// Empty pieces are skipped.
pub open spec fn port_list(pieces: Seq<Seq<char>>) -> Result<Seq<u16>, Seq<char>>
    decreases pieces.len(),
{
    if pieces.len() == 0 {
        Ok(seq![])
    } else {
        match port_list(pieces.drop_last()) {
            Err(e) => Err(e),
            Ok(ps) => {
                let t = pieces.last();
                if t.len() == 0 {
                    Ok(ps)
                } else {
                    match u16_text(t) {
                        None => Err("Invalid reverse port: "@ + t),
                        Some(p) => if p == 0 {
                            Err("Reverse ports must be between 1 and 65535."@)
                        } else {
                            Ok(ps.push(p))
                        },
                    }
                }
            },
        }
    }
}

/// The reverse ports typed in the connect form, separated by commas or
/// whitespace.
pub fn parse_port_list(text: &str) -> (r: Result<Vec<u16>, String>)
    ensures
        match r {
            Ok(ports) => port_list(port_pieces(text@)) == Ok::<Seq<u16>, Seq<char>>(ports@),
            Err(m) => port_list(port_pieces(text@)) == Err::<Seq<u16>, Seq<char>>(m@),
        },
{
    let chars = chars_of(text);
    let mut pieces: Vec<Vec<char>> = Vec::new();
    let mut cur: Vec<char> = Vec::new();
    let mut i: usize = 0;
    while i < chars.len()
        invariant
            i <= chars@.len(),
            (pieces.deep_view(), cur@) == port_pieces_acc(chars@.take(i as int)),
        decreases chars@.len() - i,
    {
        let c = chars[i];
        assert(chars@.take(i + 1).drop_last() == chars@.take(i as int));
        if c == ',' || is_whitespace(c) {
            let ghost before = pieces.deep_view();
            let ghost piece = cur@;
            assert(cur.deep_view() =~= piece);
            pieces.push(cur);
            cur = Vec::new();
            assert(pieces.deep_view() =~= before.push(piece));
        } else {
            cur.push(c);
        }
        i = i + 1;
    }
    assert(chars@.take(chars@.len() as int) == chars@);
    let ghost before = pieces.deep_view();
    let ghost piece = cur@;
    assert(cur.deep_view() =~= piece);
    pieces.push(cur);
    assert(pieces.deep_view() =~= before.push(piece));
    let ghost pv = pieces.deep_view();
    assert(pv == port_pieces(text@));
    let mut ports: Vec<u16> = Vec::new();
    let mut k: usize = 0;
    while k < pieces.len()
        invariant
            k <= pieces@.len(),
            pv == pieces.deep_view(),
            pv == port_pieces(text@),
            port_list(pv.take(k as int)) == Ok::<Seq<u16>, Seq<char>>(ports@),
        decreases pieces@.len() - k,
    {
        let t = &pieces[k];
        assert(t@ == pv[k as int]);
        assert(pv.take(k + 1).drop_last() == pv.take(k as int));
        assert(pv.take(k + 1).last() == pv[k as int]);
        if t.len() > 0 {
            match parse_u16(t) {
                None => {
                    let mut msg = chars_of("Invalid reverse port: ");
                    let mut copy = crate::text::slice_chars(t, 0, t.len());
                    assert(t@.subrange(0, t@.len() as int) == t@);
                    msg.append(&mut copy);
                    proof {
                        lemma_port_list_err(pv, k as int + 1);
                    }
                    return Err(string_of(&msg));
                },
                Some(p) => {
                    if p == 0 {
                        proof {
                            lemma_port_list_err(pv, k as int + 1);
                        }
                        return Err("Reverse ports must be between 1 and 65535.".to_owned());
                    }
                    ports.push(p);
                },
            }
        }
        k = k + 1;
    }
    assert(pv.take(pieces@.len() as int) == pv);
    Ok(ports)
}

proof fn lemma_port_list_err(pieces: Seq<Seq<char>>, k: int)
    requires
        0 <= k <= pieces.len(),
        port_list(pieces.take(k)) is Err,
    ensures
        port_list(pieces) == port_list(pieces.take(k)),
    decreases pieces.len() - k,
{
    if k < pieces.len() {
        assert(pieces.take(k + 1).drop_last() == pieces.take(k));
        lemma_port_list_err(pieces, k + 1);
    } else {
        assert(pieces.take(k) == pieces);
    }
}

/// The extra SSH arguments typed in the connect form: split as a shell would,
/// or at whitespace when a quote is left open.
pub fn parse_ssh_args(text: &str) -> (args: Vec<String>)
    ensures
        string_views(args@) == match shell_words_split(text@) {
            Some(words) => words,
            None => tokens(text@),
        },
{
    match split(text) {
        Ok(args) => args,
        Err(_) => {
            let toks = split_whitespace(&chars_of(text));
            let mut out: Vec<String> = Vec::new();
            let mut i: usize = 0;
            while i < toks.len()
                invariant
                    i <= toks@.len(),
                    string_views(out@) == toks.deep_view().take(i as int),
                decreases toks@.len() - i,
            {
                let ghost before = string_views(out@);
                let s = string_of(&toks[i]);
                out.push(s);
                assert(toks@[i as int]@ == toks.deep_view()[i as int]);
                assert(string_views(out@) =~= before.push(toks.deep_view()[i as int]));
                assert(toks.deep_view().take(i + 1) =~= toks.deep_view().take(i as int).push(
                    toks.deep_view()[i as int],
                ));
                i = i + 1;
            }
            assert(toks.deep_view().take(toks@.len() as int) == toks.deep_view());
            out
        },
    }
}

/// The connect form's settings kept between runs.
#[derive(Debug)]
pub struct ConnectPreferences {
    pub destination: String,
    pub reverse_text: String,
    pub ssh_args_text: String,
    pub theme_mode: ThemeMode,
}

impl Default for ConnectPreferences {
    fn default() -> (p: ConnectPreferences)
        ensures
            p.destination@.len() == 0,
            p.reverse_text@.len() == 0,
            p.ssh_args_text@.len() == 0,
            p.theme_mode == ThemeMode::Dark,
    {
        ConnectPreferences {
            destination: String::new(),
            reverse_text: String::new(),
            ssh_args_text: String::new(),
            theme_mode: ThemeMode::Dark,
        }
    }
}

/// The connect form as it opens.
#[derive(Debug)]
pub struct ConnectForm {
    pub destination: String,
    pub reverse_text: String,
    pub ssh_args_text: String,
    pub interval_text: String,
    pub include_loopback: bool,
    pub auto_forward: bool,
    pub theme_mode: ThemeMode,
    /// A destination was given on the command line: connect at once.
    pub connect_now: bool,
}

/// Whether the form opens with the saved settings: the command line names
/// no destination, reverse port or SSH argument.
pub open spec fn uses_saved(cli: Cli) -> bool {
    cli.destination is None && cli.reverse_ports@.len() == 0 && cli.ssh_args@.len() == 0
}

/// The decimal texts of some ports.
pub open spec fn port_texts(ports: Seq<u16>) -> Seq<Seq<char>> {
    ports.map_values(|p: u16| decimal(p as nat))
}

/// The connect form for a command line and the saved settings: the saved
/// destination, reverse ports and SSH arguments when the command line gives
/// none of them, else the command line's (ports joined by `, `, arguments by
/// spaces); interval and switches always from the command line.
pub fn connect_form(cli: &Cli, saved: &ConnectPreferences) -> (f: ConnectForm)
    ensures
        f.destination@ == (if uses_saved(*cli) {
            saved.destination@
        } else {
            match cli.destination {
                Some(d) => d@,
                None => seq![],
            }
        }),
        f.reverse_text@ == (if uses_saved(*cli) {
            saved.reverse_text@
        } else {
            join_text(port_texts(cli.reverse_ports@), ", "@)
        }),
        f.ssh_args_text@ == (if uses_saved(*cli) {
            saved.ssh_args_text@
        } else {
            join_text(string_views(cli.ssh_args@), " "@)
        }),
        f.interval_text@ == decimal(cli.interval as nat),
        f.include_loopback == cli.include_loopback,
        f.auto_forward == !cli.no_auto_forward,
        f.theme_mode == saved.theme_mode,
        f.connect_now == cli.destination is Some,
{
    let use_saved = cli.destination.is_none() && cli.reverse_ports.len() == 0 && cli.ssh_args.len() == 0;
    let mut port_words: Vec<Vec<char>> = Vec::new();
    let mut i: usize = 0;
    while i < cli.reverse_ports.len()
        invariant
            i <= cli.reverse_ports@.len(),
            port_words.deep_view() == port_texts(cli.reverse_ports@.take(i as int)),
        decreases cli.reverse_ports@.len() - i,
    {
        let mut w: Vec<char> = Vec::new();
        push_decimal(&mut w, cli.reverse_ports[i] as u128);
        let ghost before = port_words.deep_view();
        let ghost piece = w@;
        assert(w.deep_view() =~= piece);
        port_words.push(w);
        assert(port_words.deep_view() =~= before.push(decimal(cli.reverse_ports@[i as int] as nat)));
        assert(port_texts(cli.reverse_ports@.take(i + 1)) =~= port_texts(cli.reverse_ports@.take(i as int)).push(
            decimal(cli.reverse_ports@[i as int] as nat),
        ));
        i = i + 1;
    }
    assert(cli.reverse_ports@.take(cli.reverse_ports@.len() as int) == cli.reverse_ports@);
    let mut arg_words: Vec<Vec<char>> = Vec::new();
    let mut k: usize = 0;
    while k < cli.ssh_args.len()
        invariant
            k <= cli.ssh_args@.len(),
            arg_words.deep_view() == string_views(cli.ssh_args@.take(k as int)),
        decreases cli.ssh_args@.len() - k,
    {
        let w = chars_of(cli.ssh_args[k].as_str());
        let ghost before = arg_words.deep_view();
        let ghost piece = w@;
        assert(w.deep_view() =~= piece);
        arg_words.push(w);
        assert(arg_words.deep_view() =~= before.push(cli.ssh_args@[k as int]@));
        assert(string_views(cli.ssh_args@.take(k + 1)) =~= string_views(cli.ssh_args@.take(k as int)).push(
            cli.ssh_args@[k as int]@,
        ));
        k = k + 1;
    }
    assert(cli.ssh_args@.take(cli.ssh_args@.len() as int) == cli.ssh_args@);
    let mut interval: Vec<char> = Vec::new();
    push_decimal(&mut interval, cli.interval as u128);
    let (destination, reverse_text, ssh_args_text) = if use_saved {
        (saved.destination.clone(), saved.reverse_text.clone(), saved.ssh_args_text.clone())
    } else {
        (
            match &cli.destination {
                Some(d) => d.clone(),
                None => String::new(),
            },
            string_of(&join_words(&port_words, ", ")),
            string_of(&join_words(&arg_words, " ")),
        )
    };
    ConnectForm {
        destination,
        reverse_text,
        ssh_args_text,
        interval_text: string_of(&interval),
        include_loopback: cli.include_loopback,
        auto_forward: !cli.no_auto_forward,
        theme_mode: saved.theme_mode,
        connect_now: cli.destination.is_some(),
    }
}

/// A checked connect form: what a session is started with.
#[derive(Debug)]
pub struct ConnectRequest {
    pub destination: String,
    pub interval: u64,
    pub reverse_ports: Vec<u16>,
    pub ssh_args: Vec<String>,
}

/// The message for a missing destination.
pub open spec fn missing_destination_text() -> Seq<char> {
    "Destination is required (user@host or SSH alias)."@
}

/// The message for a bad scan interval.
pub open spec fn bad_interval_text() -> Seq<char> {
    "Scan interval must be a number of seconds >= 1."@
}

/// Check the connect form: the destination (trimmed) must not be empty, the
/// interval (trimmed) must be a whole number of seconds of at least 1, and
/// the reverse ports must read as a port list; the SSH arguments are split
/// as a shell would.
pub fn connect_request(destination: &str, interval_text: &str, reverse_text: &str, ssh_args_text: &str) -> (r: Result<ConnectRequest, String>)
    ensures
        trim(destination@).len() == 0 ==> (r matches Err(m) && m@ == missing_destination_text()),
        trim(destination@).len() > 0 && !(u64_text(trim(interval_text@)) matches Some(v) && v >= 1) ==> (
        r matches Err(m) && m@ == bad_interval_text()),
        trim(destination@).len() > 0 && (u64_text(trim(interval_text@)) matches Some(v) && v >= 1) ==> match port_list(
            port_pieces(reverse_text@),
        ) {
            Err(e) => r matches Err(m) && m@ == e,
            Ok(ports) => r matches Ok(c) && c.destination@ == trim(destination@) && Some(c.interval) == u64_text(
                trim(interval_text@),
            ) && c.reverse_ports@ == ports && string_views(c.ssh_args@) == match shell_words_split(ssh_args_text@) {
                Some(words) => words,
                None => tokens(ssh_args_text@),
            },
        },
{
    let d = trim_chars(&chars_of(destination));
    if d.len() == 0 {
        return Err("Destination is required (user@host or SSH alias).".to_owned());
    }
    let interval = match parse_u64(&trim_chars(&chars_of(interval_text))) {
        Some(v) => if v >= 1 {
            v
        } else {
            return Err("Scan interval must be a number of seconds >= 1.".to_owned());
        },
        None => {
            return Err("Scan interval must be a number of seconds >= 1.".to_owned());
        },
    };
    let reverse_ports = match parse_port_list(reverse_text) {
        Ok(ports) => ports,
        Err(e) => return Err(e),
    };
    let ssh_args = parse_ssh_args(ssh_args_text);
    Ok(ConnectRequest { destination: string_of(&d), interval, reverse_ports, ssh_args })
}

// ---------------------------------------------------------------------------
// Session tabs
// ---------------------------------------------------------------------------

/// How many tunnels are on.
pub open spec fn active_count(ts: Seq<TunnelView>) -> nat
    decreases ts.len(),
{
    if ts.len() == 0 {
        0
    } else {
        active_count(ts.drop_last()) + if ts.last().enabled {
            1nat
        } else {
            0nat
        }
    }
}

proof fn lemma_active_count_bound(ts: Seq<TunnelView>)
    ensures
        active_count(ts) <= ts.len(),
    decreases ts.len(),
{
    if ts.len() > 0 {
        lemma_active_count_bound(ts.drop_last());
    }
}

/// The title of the tunnels tab: `Tunnels (on/all)`.
pub fn tunnels_tab_title(tunnels: &Vec<Tunnel>) -> (t: String)
    ensures
        t@ == "Tunnels ("@ + decimal(active_count(tunnel_views(tunnels@))) + "/"@ + decimal(
            tunnels@.len() as nat,
        ) + ")"@,
{
    let ghost views = tunnel_views(tunnels@);
    let mut active: usize = 0;
    let mut i: usize = 0;
    while i < tunnels.len()
        invariant
            views == tunnel_views(tunnels@),
            i <= tunnels@.len(),
            active == active_count(views.take(i as int)),
        decreases tunnels@.len() - i,
    {
        assert(views.take(i + 1).drop_last() == views.take(i as int));
        assert(views[i as int] == tunnels@[i as int]@);
        proof {
            lemma_active_count_bound(views.take(i as int));
        }
        if tunnels[i].enabled {
            active = active + 1;
        }
        i = i + 1;
    }
    assert(views.take(tunnels@.len() as int) == views);
    let mut out = chars_of("Tunnels (");
    push_decimal(&mut out, active as u128);
    push_str(&mut out, "/");
    push_decimal(&mut out, tunnels.len() as u128);
    push_str(&mut out, ")");
    string_of(&out)
}

/// How many applications are running.
pub open spec fn running_count(apps: Seq<InfoView>) -> nat
    decreases apps.len(),
{
    if apps.len() == 0 {
        0
    } else {
        running_count(apps.drop_last()) + if apps.last().status is Running {
            1nat
        } else {
            0nat
        }
    }
}

proof fn lemma_running_count_bound(apps: Seq<InfoView>)
    ensures
        running_count(apps) <= apps.len(),
    decreases apps.len(),
{
    if apps.len() > 0 {
        lemma_running_count_bound(apps.drop_last());
    }
}

/// The title of the remote applications tab: `Remote Apps`, with the number
/// running when some are.
pub fn apps_tab_title(apps: &Vec<RemoteAppInfo>) -> (t: String)
    ensures
        t@ == (if running_count(info_views(apps@)) > 0 {
            "Remote Apps ("@ + decimal(running_count(info_views(apps@))) + ")"@
        } else {
            "Remote Apps"@
        }),
{
    let ghost views = info_views(apps@);
    let mut running: usize = 0;
    let mut i: usize = 0;
    while i < apps.len()
        invariant
            views == info_views(apps@),
            i <= apps@.len(),
            running == running_count(views.take(i as int)),
        decreases apps@.len() - i,
    {
        assert(views.take(i + 1).drop_last() == views.take(i as int));
        assert(views[i as int] == apps@[i as int]@);
        proof {
            lemma_running_count_bound(views.take(i as int));
        }
        match apps[i].status {
            RemoteAppStatus::Running => {
                running = running + 1;
            },
            _ => {},
        }
        i = i + 1;
    }
    assert(views.take(apps@.len() as int) == views);
    if running > 0 {
        let mut out = chars_of("Remote Apps (");
        push_decimal(&mut out, running as u128);
        push_str(&mut out, ")");
        string_of(&out)
    } else {
        "Remote Apps".to_owned()
    }
}

/// What the tunnel table shows when no row is shown.
pub fn empty_table_text(filter: &str) -> (t: &'static str)
    ensures
        t@ == (if filter@.len() == 0 {
            "No tunnels yet"@
        } else {
            "No tunnels match this filter"@
        }),
{
    if filter.is_empty() {
        "No tunnels yet"
    } else {
        "No tunnels match this filter"
    }
}

// ---------------------------------------------------------------------------
// The tunnel table
// ---------------------------------------------------------------------------

/// Whether a tunnel matches the filter: an empty filter matches everything;
/// otherwise the lower-cased label, the service port or the listening port
/// must contain it.
pub open spec fn matches_filter(t: TunnelView, filter: Seq<char>) -> bool {
    filter.len() == 0 || has_substring(lowercased(t.label), filter) || has_substring(
        decimal(t.source_port as nat),
        filter,
    ) || (t.bind_port matches Some(p) && has_substring(decimal(p as nat), filter))
}

/// Whether a tunnel matches the filter of the tunnel table.
pub fn tunnel_matches(tunnel: &Tunnel, filter: &str) -> (b: bool)
    ensures
        b == matches_filter(tunnel@, filter@),
{
    if filter.is_empty() {
        return true;
    }
    let f = chars_of(filter);
    let label = chars_of(to_lowercase(tunnel.label.as_str()).as_str());
    if contains_text(&label, &f) {
        return true;
    }
    let mut source: Vec<char> = Vec::new();
    push_decimal(&mut source, tunnel.source_port as u128);
    if contains_text(&source, &f) {
        return true;
    }
    match tunnel.bind_port {
        Some(p) => {
            let mut bind: Vec<char> = Vec::new();
            push_decimal(&mut bind, p as u128);
            contains_text(&bind, &f)
        },
        None => false,
    }
}

/// How a tunnel's status is drawn.
#[derive(Clone, Copy, Debug, PartialEq, Eq, Structural)]
pub enum StatusKind {
    On,
    Warn,
    Error,
    Off,
}

/// A tunnel's status: its word, how it is drawn, and the text shown on hover.
#[derive(Debug)]
pub struct TunnelStatus<'a> {
    pub label: &'static str,
    pub kind: StatusKind,
    pub tooltip: Option<&'a str>,
}

/// The status column of a tunnel: `failed` with the error, else `ON`,
/// `MANUAL OFF`, `TARGET DOWN` (remote port not listening) or `off`.
pub open spec fn status_of(t: TunnelView) -> (Seq<char>, StatusKind, Option<Seq<char>>) {
    match t.error {
        Some(e) => ("failed"@, StatusKind::Error, Some(e)),
        None => if t.enabled {
            ("ON"@, StatusKind::On, None)
        } else if t.manual_off {
            ("MANUAL OFF"@, StatusKind::Off, None)
        } else if !t.present {
            ("TARGET DOWN"@, StatusKind::Warn, Some("Remote port is not currently listening"@))
        } else {
            ("off"@, StatusKind::Off, None)
        },
    }
}

/// The status column of a tunnel.
pub fn tunnel_status<'a>(tunnel: &'a Tunnel) -> (s: TunnelStatus<'a>)
    ensures
        (s.label@, s.kind, match s.tooltip {
            Some(x) => Some(x@),
            None => None,
        }) == status_of(tunnel@),
{
    match &tunnel.error {
        Some(error) => {
            return TunnelStatus { label: "failed", kind: StatusKind::Error, tooltip: Some(error.as_str()) };
        },
        None => {},
    }
    if tunnel.enabled {
        TunnelStatus { label: "ON", kind: StatusKind::On, tooltip: None }
    } else if tunnel.manual_off {
        TunnelStatus { label: "MANUAL OFF", kind: StatusKind::Off, tooltip: None }
    } else if !tunnel.present {
        TunnelStatus {
            label: "TARGET DOWN",
            kind: StatusKind::Warn,
            tooltip: Some("Remote port is not currently listening"),
        }
    } else {
        TunnelStatus { label: "off", kind: StatusKind::Off, tooltip: None }
    }
}

// ---------------------------------------------------------------------------
// Remote application errors
// ---------------------------------------------------------------------------

/// The first position from `k` on where `needle` occurs in `s`.
pub open spec fn first_occurrence(s: Seq<char>, needle: Seq<char>, k: int) -> Option<int>
    decreases s.len() + 1 - k,
{
    if k < 0 || k + needle.len() > s.len() {
        None
    } else if occurs_at(s, needle, k) {
        Some(k)
    } else {
        first_occurrence(s, needle, k + 1)
    }
}

/// The first line that is not blank.
pub open spec fn first_nonblank(ls: Seq<Seq<char>>) -> Option<Seq<char>>
    decreases ls.len(),
{
    if ls.len() == 0 {
        None
    } else if trim(ls[0]).len() > 0 {
        Some(ls[0])
    } else {
        first_nonblank(ls.drop_first())
    }
}

/// The most telling part of an error: from the first known failure message
/// on (`Failed to execvp`, `Failed initializing GTK`, `Permission denied`, in
/// that order of preference), else its first non-blank line.
pub open spec fn telling_part(details: Seq<char>) -> Seq<char> {
    match first_occurrence(details, "Failed to execvp"@, 0) {
        Some(i) => details.skip(i),
        None => match first_occurrence(details, "Failed initializing GTK"@, 0) {
            Some(i) => details.skip(i),
            None => match first_occurrence(details, "Permission denied"@, 0) {
                Some(i) => details.skip(i),
                None => match first_nonblank(lines(details)) {
                    Some(l) => l,
                    None => details,
                },
            },
        },
    }
}

/// The one-line summary of an error: its telling part, trimmed, cut to 109
/// characters and `...` when longer than 112.
pub open spec fn summary_text(details: Seq<char>) -> Seq<char> {
    let p = trim(telling_part(details));
    if p.len() > 112 {
        p.take(109) + "..."@
    } else {
        p
    }
}

/// The first position where `needle` occurs in `s`.
fn find_text(s: &Vec<char>, needle: &Vec<char>) -> (r: Option<usize>)
    ensures
        match r {
            Some(i) => first_occurrence(s@, needle@, 0) == Some(i as int) && i + needle@.len() <= s@.len(),
            None => first_occurrence(s@, needle@, 0) is None,
        },
{
    if needle.len() > s.len() {
        return None;
    }
    let limit = s.len() - needle.len();
    let mut k: usize = 0;
    while k <= limit
        invariant
            needle@.len() <= s@.len(),
            limit == s@.len() - needle@.len(),
            k <= limit + 1,
            first_occurrence(s@, needle@, 0) == first_occurrence(s@, needle@, k as int),
        decreases limit + 1 - k,
    {
        if matches_at(s, needle, k) {
            return Some(k);
        }
        if k == limit {
            assert(first_occurrence(s@, needle@, k + 1) is None);
            return None;
        }
        k = k + 1;
    }
    None
}

/// The index of the first line that is not blank.
fn first_nonblank_index(ls: &Vec<Vec<char>>) -> (r: Option<usize>)
    ensures
        match r {
            Some(j) => j < ls@.len() && first_nonblank(ls.deep_view()) == Some(ls.deep_view()[j as int]),
            None => first_nonblank(ls.deep_view()) is None,
        },
{
    let ghost lv = ls.deep_view();
    let mut j: usize = 0;
    assert(lv.skip(0) == lv);
    while j < ls.len()
        invariant
            j <= ls@.len(),
            lv == ls.deep_view(),
            first_nonblank(lv) == first_nonblank(lv.skip(j as int)),
        decreases ls@.len() - j,
    {
        assert(ls@[j as int]@ == lv[j as int]);
        let t = trim_chars(&ls[j]);
        assert(lv.skip(j as int)[0] == lv[j as int]);
        if t.len() > 0 {
            return Some(j);
        }
        assert(lv.skip(j as int).drop_first() == lv.skip(j + 1));
        j = j + 1;
    }
    assert(lv.skip(j as int).len() == 0);
    None
}

/// The one-line summary of a remote application's error.
pub fn remote_app_summary(details: &str) -> (summary: String)
    ensures
        summary@ == summary_text(details@),
{
    let d = chars_of(details);
    let n1 = chars_of("Failed to execvp");
    let n2 = chars_of("Failed initializing GTK");
    let n3 = chars_of("Permission denied");
    let found = match find_text(&d, &n1) {
        Some(i) => Some(i),
        None => match find_text(&d, &n2) {
            Some(i) => Some(i),
            None => find_text(&d, &n3),
        },
    };
    let part: Vec<char> = match found {
        Some(i) => {
            assert(d@.subrange(i as int, d@.len() as int) == d@.skip(i as int));
            crate::text::slice_chars(&d, i, d.len())
        },
        None => {
            let ls = split_lines(&d);
            let ghost lv = ls.deep_view();
            match first_nonblank_index(&ls) {
                Some(j) => {
                    assert(first_nonblank(lv) == Some(lv[j as int]));
                    let l = &ls[j];
                    assert(l@.subrange(0, l@.len() as int) == l@);
                    crate::text::slice_chars(l, 0, l.len())
                },
                None => {
                    assert(d@.subrange(0, d@.len() as int) == d@);
                    crate::text::slice_chars(&d, 0, d.len())
                },
            }
        },
    };
    assert(part@ == telling_part(details@));
    let p = trim_chars(&part);
    if p.len() > 112 {
        let mut out = crate::text::slice_chars(&p, 0, 109);
        push_str(&mut out, "...");
        string_of(&out)
    } else {
        string_of(&p)
    }
}

} // verus!
