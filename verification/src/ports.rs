//! Tunnels, remote listeners and the `ss` listing they are discovered from.

use std::collections::BTreeMap;

use vstd::prelude::*;
use vstd::std_specs::btree::increasing_seq;
use vstd::std_specs::iter::IteratorSpec;

use crate::text::{
    chars_of, has_prefix, is_ws, parse_u16, segments, split_at_char, split_whitespace,
    starts_with, string_of, tokens, u16_text, contains_char, decimal, push_decimal, push_str,
};

verus! {

/// How many ports past the preferred one are tried before giving up.
pub const MAX_PORT_FALLBACKS: u16 = 5;

/// Which side of the SSH connection listens.
#[derive(Clone, Copy, Debug, PartialEq, Eq, Structural)]
pub enum Direction {
    /// A remote service reached through a local listener (`-L`).
    Local,
    /// A local service exposed on the remote host (`-R`).
    Reverse,
}

/// Application-layer protocol guessed for a forwarded TCP service.
///
/// SSH tunnels are always TCP; this describes what speaks on top of that
/// stream when it can be detected (HTTP(S), WebSocket, or plain TCP).
/// `Wss` is reserved for TLS WebSocket endpoints.
#[derive(Clone, Copy, Debug, PartialEq, Eq, Structural)]
pub enum Protocol {
    Tcp,
    Http,
    Https,
    Ws,
    Wss,
}

/// The URL scheme name of a protocol.
pub open spec fn protocol_name(p: Protocol) -> Seq<char> {
    match p {
        Protocol::Tcp => "tcp"@,
        Protocol::Http => "http"@,
        Protocol::Https => "https"@,
        Protocol::Ws => "ws"@,
        Protocol::Wss => "wss"@,
    }
}

impl Protocol {
    /// The URL scheme name of this protocol.
    pub fn as_str(self) -> (s: &'static str)
        ensures
            s@ == protocol_name(self),
    {
        match self {
            Protocol::Tcp => "tcp",
            Protocol::Http => "http",
            Protocol::Https => "https",
            Protocol::Ws => "ws",
            Protocol::Wss => "wss",
        }
    }
}

/// The text of an optional string.
pub open spec fn opt_text(o: Option<String>) -> Option<Seq<char>> {
    match o {
        Some(s) => Some(s@),
        None => None,
    }
}

/// One forward, discovered or created by hand.
#[derive(Clone, Debug, PartialEq, Eq)]
pub struct Tunnel {
    pub direction: Direction,
    /// The port of the service: remote for `Local`, local for `Reverse`.
    pub source_port: u16,
    /// The port actually listening while the forward is active.
    pub bind_port: Option<u16>,
    pub enabled: bool,
    pub error: Option<String>,
    /// Whether the remote service was seen by the last scans.
    pub present: bool,
    /// Consecutive scans that did not see the remote service.
    pub missing_scans: u8,
    /// Turned off by the user: never switched on again by a scan.
    pub manual_off: bool,
    /// The listening port to try first.
    pub requested_port: u16,
    pub label: String,
    /// Found by a scan rather than added by hand.
    pub discovered: bool,
    pub protocol: Protocol,
}

/// The text of an optional run of characters.
pub open spec fn opt_chars(o: Option<Vec<char>>) -> Option<Seq<char>> {
    match o {
        Some(v) => Some(v@),
        None => None,
    }
}

/// A tunnel as plain values.
pub struct TunnelView {
    pub direction: Direction,
    pub source_port: u16,
    pub bind_port: Option<u16>,
    pub enabled: bool,
    pub error: Option<Seq<char>>,
    pub present: bool,
    pub missing_scans: u8,
    pub manual_off: bool,
    pub requested_port: u16,
    pub label: Seq<char>,
    pub discovered: bool,
    pub protocol: Protocol,
}

impl View for Tunnel {
    type V = TunnelView;

    open spec fn view(&self) -> TunnelView {
        TunnelView {
            direction: self.direction,
            source_port: self.source_port,
            bind_port: self.bind_port,
            enabled: self.enabled,
            error: opt_text(self.error),
            present: self.present,
            missing_scans: self.missing_scans,
            manual_off: self.manual_off,
            requested_port: self.requested_port,
            label: self.label@,
            discovered: self.discovered,
            protocol: self.protocol,
        }
    }
}

/// The views of a list of tunnels.
pub open spec fn tunnel_views(ts: Seq<Tunnel>) -> Seq<TunnelView> {
    ts.map_values(|t: Tunnel| t@)
}

/// A fresh, inactive tunnel.
pub open spec fn new_tunnel(
    direction: Direction,
    source_port: u16,
    requested_port: u16,
    label: Seq<char>,
    discovered: bool,
) -> TunnelView {
    TunnelView {
        direction,
        source_port,
        bind_port: None,
        enabled: false,
        error: None,
        present: true,
        missing_scans: 0,
        manual_off: false,
        requested_port,
        label,
        discovered,
        protocol: Protocol::Tcp,
    }
}

impl Tunnel {
    /// A discovered forward of a remote port, to the same local port.
    pub fn local(remote_port: u16) -> (t: Tunnel)
        ensures
            t@ == new_tunnel(Direction::Local, remote_port, remote_port, seq![], true),
    {
        Tunnel {
            direction: Direction::Local,
            source_port: remote_port,
            bind_port: None,
            enabled: false,
            error: None,
            present: true,
            missing_scans: 0,
            manual_off: false,
            requested_port: remote_port,
            label: String::new(),
            discovered: true,
            protocol: Protocol::Tcp,
        }
    }

    /// A reverse forward of a local port, to the same remote port.
    pub fn reverse(local_port: u16) -> (t: Tunnel)
        ensures
            t@ == new_tunnel(Direction::Reverse, local_port, local_port, seq![], false),
    {
        Tunnel {
            direction: Direction::Reverse,
            source_port: local_port,
            bind_port: None,
            enabled: false,
            error: None,
            present: true,
            missing_scans: 0,
            manual_off: false,
            requested_port: local_port,
            label: String::new(),
            discovered: false,
            protocol: Protocol::Tcp,
        }
    }

    /// A forward added by hand: `remote_port` reached on `local_port`.
    pub fn manual_local(remote_port: u16, local_port: u16, label: String) -> (t: Tunnel)
        ensures
            t@ == new_tunnel(Direction::Local, remote_port, local_port, label@, false),
    {
        Tunnel {
            direction: Direction::Local,
            source_port: remote_port,
            bind_port: None,
            enabled: false,
            error: None,
            present: true,
            missing_scans: 0,
            manual_off: false,
            requested_port: local_port,
            label,
            discovered: false,
            protocol: Protocol::Tcp,
        }
    }

    /// A reverse forward added by hand: `local_port` exposed on `remote_port`.
    pub fn manual_reverse(local_port: u16, remote_port: u16, label: String) -> (t: Tunnel)
        ensures
            t@ == new_tunnel(Direction::Reverse, local_port, remote_port, label@, false),
    {
        let mut tunnel = Self::reverse(local_port);
        tunnel.requested_port = remote_port;
        tunnel.label = label;
        tunnel
    }
}

/// How many ports are tried from `preferred` on: the preferred one and up to
/// `MAX_PORT_FALLBACKS` more, stopping at 65535.
pub open spec fn candidate_count(preferred: u16) -> nat {
    if preferred + MAX_PORT_FALLBACKS <= 65535 {
        (MAX_PORT_FALLBACKS + 1) as nat
    } else {
        (65536 - preferred) as nat
    }
}

/// The ports tried, in order, when `preferred` may be taken: `preferred`,
/// `preferred + 1`, ... up to `preferred + MAX_PORT_FALLBACKS`, never past 65535.
pub fn port_candidates(preferred: u16) -> (ports: Vec<u16>)
    ensures
        ports@.len() == candidate_count(preferred),
        forall|i: int| 0 <= i < ports@.len() ==> ports@[i] == preferred + i,
{
    let mut ports: Vec<u16> = Vec::new();
    let mut offset: u16 = 0;
    while offset <= MAX_PORT_FALLBACKS
        invariant
            offset <= MAX_PORT_FALLBACKS + 1,
            ports@.len() == offset,
            preferred + offset <= 65536,
            forall|i: int| 0 <= i < ports@.len() ==> ports@[i] == preferred + i,
        decreases MAX_PORT_FALLBACKS + 1 - offset,
    {
        if preferred as u32 + offset as u32 > 65535 {
            return ports;
        }
        ports.push(preferred + offset);
        offset = offset + 1;
    }
    ports
}

// ---------------------------------------------------------------------------
// Remote listeners reported by `ss -lnt[p]`
// ---------------------------------------------------------------------------

/// A TCP port listening on the remote host, with the process name when `ss`
/// reports one.
#[derive(Clone, Debug, PartialEq, Eq)]
pub struct RemoteListener {
    pub port: u16,
    pub process: Option<String>,
}

/// A remote listener as plain values.
pub struct ListenerView {
    pub port: u16,
    pub process: Option<Seq<char>>,
}

impl View for RemoteListener {
    type V = ListenerView;

    open spec fn view(&self) -> ListenerView {
        ListenerView { port: self.port, process: opt_text(self.process) }
    }
}

/// The views of a list of listeners.
pub open spec fn listener_views(ls: Seq<RemoteListener>) -> Seq<ListenerView> {
    ls.map_values(|l: RemoteListener| l@)
}

/// The marker `ss -p` puts before a process name: `users:(("`.
pub open spec fn users_marker() -> Seq<char> {
    seq!['u', 's', 'e', 'r', 's', ':', '(', '(', '"']
}

/// The `127.` prefix of IPv4 loopback addresses.
pub open spec fn ipv4_loopback() -> Seq<char> {
    seq!['1', '2', '7', '.']
}

/// The `[::1]` IPv6 loopback address.
pub open spec fn ipv6_loopback() -> Seq<char> {
    seq!['[', ':', ':', '1', ']']
}

/// The process name in a `users:(("name",pid=..,fd=..))` token: the text
/// between the opening quote and the next quote, when it is not empty.
pub open spec fn ss_process(token: Seq<char>) -> Option<Seq<char>> {
    if starts_with(token, users_marker()) {
        let name = segments(token.skip(9), '"')[0];
        if name.len() > 0 {
            Some(name)
        } else {
            None
        }
    } else {
        None
    }
}

/// The listening port in a `host:port` token: the number after the last
/// colon, when it is above 1024. Bare numbers (the queue columns) have no
/// colon and are not ports. Loopback hosts count only when asked for.
pub open spec fn ss_local_port(token: Seq<char>, include_loopback: bool) -> Option<u16> {
    if !token.contains(':') {
        None
    } else if !include_loopback && (starts_with(token, ipv4_loopback()) || starts_with(
        token,
        ipv6_loopback(),
    )) {
        None
    } else {
        match u16_text(segments(token, ':').last()) {
            Some(port) => if port > 1024 {
                Some(port)
            } else {
                None
            },
            None => None,
        }
    }
}

/// Reading the tokens of one `ss` line left to right: the first listening
/// port found in a token that names no process, and the last process name.
pub open spec fn ss_line_acc(toks: Seq<Seq<char>>, include_loopback: bool) -> (
    Option<u16>,
    Option<Seq<char>>,
)
    decreases toks.len(),
{
    if toks.len() == 0 {
        (None, None)
    } else {
        let (port, process) = ss_line_acc(toks.drop_last(), include_loopback);
        let t = toks.last();
        match ss_process(t) {
            Some(name) => (port, Some(name)),
            None => if port is None {
                (ss_local_port(t, include_loopback), process)
            } else {
                (port, process)
            },
        }
    }
}

/// The listener one `ss` line reports, if it names a listening port.
pub open spec fn ss_line(line: Seq<char>, include_loopback: bool) -> Option<
    (u16, Option<Seq<char>>),
> {
    let (port, process) = ss_line_acc(tokens(line), include_loopback);
    match port {
        Some(p) => Some((p, process)),
        None => None,
    }
}

/// The listeners reported line by line, in order of the lines.
pub open spec fn ss_entries(lines: Seq<Seq<char>>, include_loopback: bool) -> Seq<
    (u16, Option<Seq<char>>),
>
    decreases lines.len(),
{
    if lines.len() == 0 {
        seq![]
    } else {
        let earlier = ss_entries(lines.drop_last(), include_loopback);
        match ss_line(lines.last(), include_loopback) {
            Some(e) => earlier.push(e),
            None => earlier,
        }
    }
}

/// Each port reported, with the first process name reported for it.
pub open spec fn listener_table(entries: Seq<(u16, Option<Seq<char>>)>) -> Map<
    u16,
    Option<Seq<char>>,
>
    decreases entries.len(),
{
    if entries.len() == 0 {
        Map::empty()
    } else {
        let m = listener_table(entries.drop_last());
        let (port, process) = entries.last();
        if !m.dom().contains(port) || m[port] is None {
            m.insert(port, process)
        } else {
            m
        }
    }
}

/// `ls` lists the ports of `table`, each once, in ascending order, with the
/// process recorded for it.
pub open spec fn lists_table(ls: Seq<ListenerView>, table: Map<u16, Option<Seq<char>>>) -> bool {
    &&& forall|i: int, j: int| 0 <= i < j < ls.len() ==> ls[i].port < ls[j].port
    &&& forall|i: int| 0 <= i < ls.len() ==> #[trigger] table.dom().contains(ls[i].port)
    &&& forall|i: int| 0 <= i < ls.len() ==> table[ls[i].port] == #[trigger] ls[i].process
    &&& forall|p: u16| #[trigger] table.dom().contains(p) ==> exists|i: int|
        0 <= i < ls.len() && ls[i].port == p
}

proof fn lemma_line_port_unprivileged(toks: Seq<Seq<char>>, include_loopback: bool)
    ensures
        ss_line_acc(toks, include_loopback).0 matches Some(p) ==> p > 1024,
    decreases toks.len(),
{
    if toks.len() > 0 {
        lemma_line_port_unprivileged(toks.drop_last(), include_loopback);
    }
}

proof fn lemma_entries_unprivileged(lines: Seq<Seq<char>>, include_loopback: bool)
    ensures
        forall|k: int|
            0 <= k < ss_entries(lines, include_loopback).len() ==> (#[trigger] ss_entries(
                lines,
                include_loopback,
            )[k]).0 > 1024,
    decreases lines.len(),
{
    if lines.len() > 0 {
        lemma_entries_unprivileged(lines.drop_last(), include_loopback);
        lemma_line_port_unprivileged(tokens(lines.last()), include_loopback);
        let earlier = ss_entries(lines.drop_last(), include_loopback);
        let all = ss_entries(lines, include_loopback);
        assert forall|k: int| 0 <= k < all.len() implies (#[trigger] all[k]).0 > 1024 by {
            if k < earlier.len() {
                assert(all[k] == earlier[k]);
            }
        }
    }
}

proof fn lemma_table_ports(entries: Seq<(u16, Option<Seq<char>>)>)
    ensures
        forall|p: u16| #[trigger] listener_table(entries).dom().contains(p) ==> exists|k: int|
            0 <= k < entries.len() && entries[k].0 == p,
    decreases entries.len(),
{
    if entries.len() > 0 {
        let front = entries.drop_last();
        lemma_table_ports(front);
        assert forall|p: u16| #[trigger] listener_table(entries).dom().contains(p) implies exists|k: int|
            0 <= k < entries.len() && entries[k].0 == p by {
            if p == entries.last().0 {
                assert(entries[entries.len() - 1].0 == p);
            } else {
                assert(listener_table(front).dom().contains(p));
                let k = choose|k: int| 0 <= k < front.len() && front[k].0 == p;
                assert(entries[k].0 == p);
            }
        }
    }
}

proof fn lemma_line_process_named(toks: Seq<Seq<char>>, include_loopback: bool)
    ensures
        ss_line_acc(toks, include_loopback).1 matches Some(n) ==> n.len() > 0,
    decreases toks.len(),
{
    if toks.len() > 0 {
        lemma_line_process_named(toks.drop_last(), include_loopback);
    }
}

proof fn lemma_entries_named(lines: Seq<Seq<char>>, include_loopback: bool)
    ensures
        forall|k: int|
            0 <= k < ss_entries(lines, include_loopback).len() ==> ((#[trigger] ss_entries(
                lines,
                include_loopback,
            )[k]).1 matches Some(n) ==> n.len() > 0),
    decreases lines.len(),
{
    if lines.len() > 0 {
        lemma_entries_named(lines.drop_last(), include_loopback);
        lemma_line_process_named(tokens(lines.last()), include_loopback);
        let earlier = ss_entries(lines.drop_last(), include_loopback);
        let all = ss_entries(lines, include_loopback);
        assert forall|k: int| 0 <= k < all.len() implies ((#[trigger] all[k]).1 matches Some(n) ==> n.len() > 0) by {
            if k < earlier.len() {
                assert(all[k] == earlier[k]);
            }
        }
    }
}

proof fn lemma_table_values(entries: Seq<(u16, Option<Seq<char>>)>)
    ensures
        forall|p: u16| #[trigger] listener_table(entries).dom().contains(p) ==> exists|k: int|
            0 <= k < entries.len() && entries[k].0 == p && entries[k].1 == listener_table(entries)[p],
    decreases entries.len(),
{
    if entries.len() > 0 {
        let front = entries.drop_last();
        lemma_table_values(front);
        let m = listener_table(front);
        let t = listener_table(entries);
        assert forall|p: u16| #[trigger] t.dom().contains(p) implies exists|k: int|
            0 <= k < entries.len() && entries[k].0 == p && entries[k].1 == t[p] by {
            let (port, process) = entries.last();
            if p == port && (!m.dom().contains(port) || m[port] is None) {
                assert(entries[entries.len() - 1].0 == p && entries[entries.len() - 1].1 == t[p]);
            } else {
                assert(m.dom().contains(p));
                assert(t[p] == m[p]);
                let k = choose|k: int| 0 <= k < front.len() && front[k].0 == p && front[k].1 == m[p];
                assert(entries[k] == front[k]);
            }
        }
    }
}

/// No listed process name is empty: a listener carries a process name only
/// when `ss` printed a non-empty one.
pub proof fn listed_process_names_are_not_empty(lines: Seq<Seq<char>>, include_loopback: bool)
    ensures
        forall|p: u16| #[trigger] listener_table(ss_entries(lines, include_loopback)).dom().contains(p)
            ==> (listener_table(ss_entries(lines, include_loopback))[p] matches Some(n) ==> n.len() > 0),
{
    let entries = ss_entries(lines, include_loopback);
    lemma_entries_named(lines, include_loopback);
    lemma_table_values(entries);
    assert forall|p: u16| #[trigger] listener_table(entries).dom().contains(p) implies (listener_table(
        entries,
    )[p] matches Some(n) ==> n.len() > 0) by {
        let k = choose|k: int|
            0 <= k < entries.len() && entries[k].0 == p && entries[k].1 == listener_table(entries)[p];
        assert(entries[k].1 matches Some(n) ==> n.len() > 0);
    }
}

/// The message when no local port from `preferred` on is free.
pub open spec fn unavailable_text(preferred: u16) -> Seq<char> {
    "ports "@ + decimal(preferred as nat) + " through "@ + decimal(
        (preferred as nat + candidate_count(preferred) - 1) as nat,
    ) + " are unavailable"@
}

/// The message when no local port from `preferred` on is free
/// (`ports 3000 through 3005 are unavailable`).
pub fn unavailable_message(preferred: u16) -> (m: String)
    ensures
        m@ == unavailable_text(preferred),
{
    let last: u16 = if preferred <= 65535 - MAX_PORT_FALLBACKS {
        preferred + MAX_PORT_FALLBACKS
    } else {
        65535
    };
    let mut out = chars_of("ports ");
    push_decimal(&mut out, preferred as u128);
    push_str(&mut out, " through ");
    push_decimal(&mut out, last as u128);
    push_str(&mut out, " are unavailable");
    string_of(&out)
}

/// Only listeners above port 1024 are discovered: every port a scan reports
/// is above 1024.
pub proof fn discovered_ports_are_unprivileged(lines: Seq<Seq<char>>, include_loopback: bool)
    ensures
        forall|p: u16| #[trigger] listener_table(ss_entries(lines, include_loopback)).dom().contains(p)
            ==> p > 1024,
{
    let entries = ss_entries(lines, include_loopback);
    lemma_entries_unprivileged(lines, include_loopback);
    lemma_table_ports(entries);
    assert forall|p: u16| #[trigger] listener_table(entries).dom().contains(p) implies p > 1024 by {
        let k = choose|k: int| 0 <= k < entries.len() && entries[k].0 == p;
        assert(entries[k].0 > 1024);
    }
}

/// Two lists that each list `table` in ascending port order are the same
/// list: the listing of a table is unique. So a scan's result is fixed by the
/// text scanned, whichever function reads it.
pub proof fn listings_of_a_table_agree(a: Seq<ListenerView>, b: Seq<ListenerView>, table: Map<u16, Option<Seq<char>>>)
    requires
        lists_table(a, table),
        lists_table(b, table),
    ensures
        a == b,
    decreases a.len(),
{
    if a.len() == 0 {
        if b.len() > 0 {
            assert(table.dom().contains(b[0].port));
        }
        assert(b.len() == 0);
        assert(a =~= b);
    } else {
        if b.len() == 0 {
            assert(table.dom().contains(a[0].port));
        }
        let x = a.last();
        let y = b.last();
        assert(table.dom().contains(x.port));
        assert(table.dom().contains(y.port));
        let ia = choose|i: int| 0 <= i < a.len() && a[i].port == y.port;
        let ib = choose|i: int| 0 <= i < b.len() && b[i].port == x.port;
        if ia < a.len() - 1 {
            assert(a[ia].port < x.port);
        }
        if ib < b.len() - 1 {
            assert(b[ib].port < y.port);
        }
        assert(x.port == y.port);
        assert(x.process == table[x.port]);
        assert(y.process == table[y.port]);
        assert(x == y);
        let m = x.port;
        let t2 = table.remove(m);
        let a2 = a.drop_last();
        let b2 = b.drop_last();
        assert forall|i: int| 0 <= i < a2.len() implies #[trigger] t2.dom().contains(a2[i].port) by {
            assert(a[i].port < m);
            assert(table.dom().contains(a[i].port));
        }
        assert forall|i: int| 0 <= i < b2.len() implies #[trigger] t2.dom().contains(b2[i].port) by {
            assert(b[i].port < m);
            assert(table.dom().contains(b[i].port));
        }
        assert forall|i: int| 0 <= i < a2.len() implies t2[a2[i].port] == #[trigger] a2[i].process by {
            assert(a[i].port < m);
            assert(table[a[i].port] == a[i].process);
        }
        assert forall|i: int| 0 <= i < b2.len() implies t2[b2[i].port] == #[trigger] b2[i].process by {
            assert(b[i].port < m);
            assert(table[b[i].port] == b[i].process);
        }
        assert forall|p: u16| #[trigger] t2.dom().contains(p) implies exists|i: int|
            0 <= i < a2.len() && a2[i].port == p by {
            let i = choose|i: int| 0 <= i < a.len() && a[i].port == p;
            assert(i != a.len() - 1);
            assert(a2[i].port == p);
        }
        assert forall|p: u16| #[trigger] t2.dom().contains(p) implies exists|i: int|
            0 <= i < b2.len() && b2[i].port == p by {
            let i = choose|i: int| 0 <= i < b.len() && b[i].port == p;
            assert(i != b.len() - 1);
            assert(b2[i].port == p);
        }
        listings_of_a_table_agree(a2, b2, t2);
        assert(a =~= a2.push(x));
        assert(b =~= b2.push(y));
    }
}

/// The process name in an `ss -p` token.
fn parse_ss_process(token: &Vec<char>) -> (r: Option<Vec<char>>)
    ensures
        match r {
            Some(v) => ss_process(token@) == Some(v@),
            None => ss_process(token@) is None,
        },
{
    let marker: Vec<char> = vec!['u', 's', 'e', 'r', 's', ':', '(', '(', '"'];
    assert(marker@ == users_marker());
    if !has_prefix(token, &marker) {
        return None;
    }
    let mut rest: Vec<char> = Vec::new();
    let mut i: usize = 9;
    while i < token.len()
        invariant
            9 <= i <= token.len(),
            rest@ == token@.subrange(9, i as int),
        decreases token.len() - i,
    {
        rest.push(token[i]);
        i = i + 1;
    }
    assert(rest@ == token@.skip(9));
    let pieces = split_at_char(&rest, '"');
    assert(pieces.deep_view().len() > 0);
    let name = slice_first(&pieces);
    if name.len() > 0 {
        Some(name)
    } else {
        None
    }
}

/// A copy of the first piece.
fn slice_first(pieces: &Vec<Vec<char>>) -> (first: Vec<char>)
    requires
        pieces.deep_view().len() > 0,
    ensures
        first@ == pieces.deep_view()[0],
{
    let p = &pieces[0];
    let mut out: Vec<char> = Vec::new();
    let mut i: usize = 0;
    while i < p.len()
        invariant
            i <= p.len(),
            p@ == pieces@[0]@,
            out@ == p@.take(i as int),
        decreases p.len() - i,
    {
        out.push(p[i]);
        i = i + 1;
    }
    assert(out@ =~= pieces.deep_view()[0]);
    out
}

/// A copy of the last piece.
fn slice_last(pieces: &Vec<Vec<char>>) -> (last: Vec<char>)
    requires
        pieces.deep_view().len() > 0,
    ensures
        last@ == pieces.deep_view().last(),
{
    let k = pieces.len() - 1;
    let p = &pieces[k];
    let mut out: Vec<char> = Vec::new();
    let mut i: usize = 0;
    while i < p.len()
        invariant
            i <= p.len(),
            k == pieces@.len() - 1,
            p@ == pieces@[k as int]@,
            out@ == p@.take(i as int),
        decreases p.len() - i,
    {
        out.push(p[i]);
        i = i + 1;
    }
    assert(out@ =~= pieces.deep_view().last());
    out
}

/// The listening port in an `ss` address token.
fn parse_ss_local_port(token: &Vec<char>, include_loopback: bool) -> (r: Option<u16>)
    ensures
        r == ss_local_port(token@, include_loopback),
{
    if !contains_char(token, ':') {
        return None;
    }
    let v4: Vec<char> = vec!['1', '2', '7', '.'];
    let v6: Vec<char> = vec!['[', ':', ':', '1', ']'];
    assert(v4@ == ipv4_loopback());
    assert(v6@ == ipv6_loopback());
    if !include_loopback && (has_prefix(token, &v4) || has_prefix(token, &v6)) {
        return None;
    }
    let pieces = split_at_char(token, ':');
    let last = slice_last(&pieces);
    match parse_u16(&last) {
        Some(port) => if port > 1024 {
            Some(port)
        } else {
            None
        },
        None => None,
    }
}

/// The listener one `ss` line reports, with the process name as characters.
fn parse_ss_line(line: &Vec<char>, include_loopback: bool) -> (r: Option<(u16, Option<Vec<char>>)>)
    ensures
        match r {
            Some((port, process)) => ss_line(line@, include_loopback) == Some(
                (
                    port,
                    opt_chars(process),
                ),
            ),
            None => ss_line(line@, include_loopback) is None,
        },
{
    let toks = split_whitespace(line);
    let ghost ts = toks.deep_view();
    let mut local_port: Option<u16> = None;
    let mut process: Option<Vec<char>> = None;
    let mut i: usize = 0;
    while i < toks.len()
        invariant
            i <= toks.len(),
            ts == toks.deep_view(),
            ss_line_acc(ts.take(i as int), include_loopback) == (
                local_port,
                opt_chars(process),
            ),
        decreases toks.len() - i,
    {
        let tok = &toks[i];
        assert(tok@ == ts[i as int]);
        assert(ts.take(i + 1).drop_last() == ts.take(i as int));
        assert(ts.take(i + 1).last() == ts[i as int]);
        match parse_ss_process(tok) {
            Some(name) => {
                process = Some(name);
            },
            None => {
                if local_port.is_none() {
                    local_port = parse_ss_local_port(tok, include_loopback);
                }
            },
        }
        i = i + 1;
    }
    assert(ts.take(toks.len() as int) == ts);
    match local_port {
        Some(port) => Some((port, process)),
        None => None,
    }
}

/// The TCP listeners in the output of `ss -H -lnt[p]`: one per port, in
/// ascending port order, each with the first process name reported for it.
/// Ports 1024 and below, and (unless `include_loopback`) listeners bound to
/// loopback, are left out.
///
/// Lines are the pieces between newlines; since a carriage return is
/// whitespace, this reads the same tokens as `str::lines`.
pub fn parse_ss_listeners(output: &str, include_loopback: bool) -> (listeners: Vec<RemoteListener>)
    ensures
        lists_table(
            listener_views(listeners@),
            listener_table(ss_entries(segments(output@, '\n'), include_loopback)),
        ),
{
    broadcast use vstd::std_specs::btree::group_btree_axioms;

    proof {
        lemma_ports_are_ordered();
    }
    let text = chars_of(output);
    let lines = split_at_char(&text, '\n');
    let ghost ls = lines.deep_view();
    let mut by_port: BTreeMap<u16, Option<String>> = BTreeMap::new();
    let mut i: usize = 0;
    assert(table_of(by_port@) =~= listener_table(ss_entries(ls.take(0), include_loopback)));
    while i < lines.len()
        invariant
            i <= lines.len(),
            ls == lines.deep_view(),
            table_of(by_port@) == listener_table(ss_entries(ls.take(i as int), include_loopback)),
        decreases lines.len() - i,
    {
        let line = &lines[i];
        assert(line@ == ls[i as int]);
        assert(ls.take(i + 1).drop_last() == ls.take(i as int));
        assert(ls.take(i + 1).last() == ls[i as int]);
        match parse_ss_line(line, include_loopback) {
            Some((port, process)) => {
                let ghost entries = ss_entries(ls.take(i as int), include_loopback);
                assert(entries.push((port, opt_chars(process))).drop_last() == entries);
                let named: Option<String> = match process {
                    Some(v) => Some(string_of(&v)),
                    None => None,
                };
                assert(opt_text(named) == opt_chars(process));
                let keep = match by_port.get(&port) {
                    Some(existing) => existing.is_none(),
                    None => true,
                };
                if keep {
                    let ghost before = by_port@;
                    by_port.insert(port, named);
                    assert(table_of(by_port@) =~= table_of(before).insert(port, opt_text(named)));
                }
            },
            None => {},
        }
        i = i + 1;
    }
    assert(ls.take(lines.len() as int) == ls);
    let ghost table = table_of(by_port@);
    let mut out: Vec<RemoteListener> = Vec::new();
    let it0 = by_port.iter();
    let ghost kv = it0.remaining();
    for (port, process) in iter: it0
        invariant
            kv == iter.seq(),
            out@.len() == iter.index(),
            forall|j: int| 0 <= j < iter.index() ==> (#[trigger] out@[j])@ == (ListenerView {
                port: *kv[j].0,
                process: opt_text(*kv[j].1),
            }),
    {
        out.push(RemoteListener { port: *port, process: copy_opt_string(process) });
    }
    let ghost keys = kv.map_values(|e: (&u16, &Option<String>)| *e.0);
    assert(increasing_seq(keys));
    proof {
        lemma_increasing_ports(keys);
    }
    let ghost lv = listener_views(out@);
    assert forall|a: int, b: int| 0 <= a < b < lv.len() implies lv[a].port < lv[b].port by {
        assert(out@[a]@.port == keys[a] && out@[b]@.port == keys[b]);
    }
    assert forall|a: int| 0 <= a < lv.len() implies #[trigger] table.dom().contains(lv[a].port) && table[lv[a].port] == lv[a].process by {
        assert(out@[a]@ == lv[a]);
        assert(by_port@.contains_key(*kv[a].0));
    }
    assert forall|p: u16| #[trigger] table.dom().contains(p) implies exists|a: int|
        0 <= a < lv.len() && lv[a].port == p by {
        assert(by_port@.contains_key(p));
        assert(kv.contains((&p, &by_port@[p])));
        let a = choose|a: int| 0 <= a < kv.len() && kv[a] == (&p, &by_port@[p]);
        assert(lv[a] == out@[a]@);
    }
    out
}

/// Ports are totally ordered as integers, as `BTreeMap` needs.
proof fn lemma_ports_are_ordered()
    ensures
        vstd::laws_cmp::obeys_cmp::<u16>(),
{
    broadcast use vstd::laws_cmp::group_laws_cmp;
}

/// An increasing sequence of ports is strictly ascending.
proof fn lemma_increasing_ports(keys: Seq<u16>)
    requires
        increasing_seq(keys),
    ensures
        forall|a: int, b: int| 0 <= a < b < keys.len() ==> keys[a] < keys[b],
{
    lemma_ports_are_ordered();
    vstd::std_specs::btree::axiom_increasing_seq_meaning::<u16>(keys);
    assert forall|a: int, b: int| 0 <= a < b < keys.len() implies keys[a] < keys[b] by {
        assert(vstd::std_specs::cmp::OrdSpec::cmp_spec(&keys[a], &keys[b]) is Less);
    }
}

/// The table a map of optional names stands for.
pub open spec fn table_of(m: Map<u16, Option<String>>) -> Map<u16, Option<Seq<char>>> {
    m.map_values(|o: Option<String>| opt_text(o))
}

} // verus!

verus! {

/// A copy of an optional string.
pub fn copy_opt_string(o: &Option<String>) -> (r: Option<String>)
    ensures
        r == *o,
{
    match o {
        Some(s) => Some(s.clone()),
        None => None,
    }
}

/// A copy of a tunnel.
pub fn copy_tunnel(t: &Tunnel) -> (r: Tunnel)
    ensures
        r == *t,
{
    Tunnel {
        direction: t.direction,
        source_port: t.source_port,
        bind_port: t.bind_port,
        enabled: t.enabled,
        error: copy_opt_string(&t.error),
        present: t.present,
        missing_scans: t.missing_scans,
        manual_off: t.manual_off,
        requested_port: t.requested_port,
        label: t.label.clone(),
        discovered: t.discovered,
        protocol: t.protocol,
    }
}

/// A copy of a remote listener.
pub fn copy_listener(l: &RemoteListener) -> (r: RemoteListener)
    ensures
        r == *l,
{
    RemoteListener { port: l.port, process: copy_opt_string(&l.process) }
}

} // verus!
