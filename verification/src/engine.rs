//! Tunnel control: form input, tunnel URLs, and the decisions the session
//! controller makes while it enables, toggles, edits and removes tunnels.
//!
//! The controller alternates SSH work with decisions. Each decision here is a
//! function from the tunnel state and the outcome of the last SSH operation to
//! the next state and the next operation ([`SshRequest`]); the caller performs
//! the operation and hands back its outcome ([`SshReply`]).

use vstd::prelude::*;

use crate::ports::{
    copy_tunnel, new_tunnel, opt_text, port_candidates, protocol_name, tunnel_views, Direction,
    Protocol, RemoteListener, Tunnel, TunnelView, MAX_PORT_FALLBACKS, candidate_count,
};
use crate::scan::{
    enabled_in_memory, in_memory, memory_result, scanned,
    action_views, bound_when_enabled, listener_tunnel, plan_actions, plan_scan, scan_panics,
    scanned_all, tunnel_from_listener, ScanAction,
};
use crate::text::{
    chars_of, decimal, push_decimal, push_str, string_of, trim, trim_chars, u16_text, parse_u16,
};
use crate::ports::{listener_views, ListenerView};

verus! {

broadcast use vstd::string::group_string_axioms;

// ---------------------------------------------------------------------------
// Tunnel URLs
// ---------------------------------------------------------------------------

/// The URL of an active local forward whose service answers as HTTP or TLS:
/// plain `http://` or `https://` text; `—` for any other tunnel.
pub open spec fn url_text(t: TunnelView) -> Seq<char> {
    if t.direction == Direction::Local && t.enabled && t.bind_port is Some && (t.protocol
        == Protocol::Http || t.protocol == Protocol::Https) {
        protocol_name(t.protocol) + "://127.0.0.1:"@ + decimal(t.bind_port->0 as nat)
    } else {
        "—"@
    }
}

/// The URL of an active local forward to an HTTP or TLS service
/// (`http://127.0.0.1:3000`), or `—`.
pub fn tunnel_url(tunnel: &Tunnel) -> (url: String)
    ensures
        url@ == url_text(tunnel@),
{
    let web = match tunnel.protocol {
        Protocol::Http | Protocol::Https => true,
        _ => false,
    };
    if tunnel.direction == Direction::Local && tunnel.enabled && web {
        match tunnel.bind_port {
            Some(port) => {
                let mut out = chars_of(tunnel.protocol.as_str());
                push_str(&mut out, "://127.0.0.1:");
                push_decimal(&mut out, port as u128);
                return string_of(&out);
            },
            None => {},
        }
    }
    "—".to_owned()
}

// ---------------------------------------------------------------------------
// Form input
// ---------------------------------------------------------------------------

/// A port typed into a form: a valid `u16` text other than 0.
pub open spec fn form_port(value: Seq<char>) -> Option<u16> {
    match u16_text(value) {
        Some(p) => if p != 0 {
            Some(p)
        } else {
            None
        },
        None => None,
    }
}

/// The message for a port field that does not hold a port.
pub open spec fn port_error(name: Seq<char>) -> Seq<char> {
    name + " must be a TCP port from 1 to 65535"@
}

/// Parse a form field as a TCP port from 1 to 65535; `name` names the field
/// in the error message.
pub fn parse_form_port(value: &str, name: &str) -> (r: Result<u16, String>)
    ensures
        match r {
            Ok(p) => form_port(value@) == Some(p),
            Err(m) => form_port(value@) is None && m@ == port_error(name@),
        },
{
    let chars = chars_of(value);
    match parse_u16(&chars) {
        Some(port) => {
            if port != 0 {
                return Ok(port);
            }
        },
        None => {},
    }
    let mut msg = chars_of(name);
    push_str(&mut msg, " must be a TCP port from 1 to 65535");
    Err(string_of(&msg))
}

/// The names of the two port fields of a form: the service port, then the
/// listening port.
pub open spec fn form_field_names(direction: Direction) -> (Seq<char>, Seq<char>) {
    match direction {
        Direction::Local => ("Remote port"@, "Local port"@),
        Direction::Reverse => ("Local port"@, "Remote port"@),
    }
}

/// The tunnel a form describes, or the message for its first bad port. An
/// empty listening port means the same port as the service; the label is
/// trimmed.
pub open spec fn form_tunnel(direction: Direction, source: Seq<char>, requested: Seq<char>, label: Seq<char>) -> Result<TunnelView, Seq<char>> {
    let (source_name, requested_name) = form_field_names(direction);
    match form_port(source) {
        None => Err(port_error(source_name)),
        Some(sp) => {
            let rp = if requested.len() == 0 {
                Some(sp)
            } else {
                form_port(requested)
            };
            match rp {
                None => Err(port_error(requested_name)),
                Some(rp) => Ok(new_tunnel(direction, sp, rp, trim(label), false)),
            }
        },
    }
}

/// A result as plain values.
pub open spec fn tunnel_result(r: Result<Tunnel, String>) -> Result<TunnelView, Seq<char>> {
    match r {
        Ok(t) => Ok(t@),
        Err(m) => Err(m@),
    }
}

/// Build a hand-made tunnel from the text of the add / edit form.
pub fn tunnel_from_form(direction: Direction, source: &str, requested: &str, label: &str) -> (r: Result<Tunnel, String>)
    ensures
        tunnel_result(r) == form_tunnel(direction, source@, requested@, label@),
{
    let (source_name, requested_name) = match direction {
        Direction::Local => ("Remote port", "Local port"),
        Direction::Reverse => ("Local port", "Remote port"),
    };
    let source_port = match parse_form_port(source, source_name) {
        Ok(p) => p,
        Err(m) => return Err(m),
    };
    let requested_port = if requested.is_empty() {
        source_port
    } else {
        match parse_form_port(requested, requested_name) {
            Ok(p) => p,
            Err(m) => return Err(m),
        }
    };
    let label = string_of(&trim_chars(&chars_of(label)));
    Ok(
        match direction {
            Direction::Local => Tunnel::manual_local(source_port, requested_port, label),
            Direction::Reverse => Tunnel::manual_reverse(source_port, requested_port, label),
        },
    )
}

// ---------------------------------------------------------------------------
// The session's control socket
// ---------------------------------------------------------------------------

/// The file name of a session's control socket.
pub open spec fn socket_name(pid: u32, nonce: u128) -> Seq<char> {
    "autotun-"@ + decimal(pid as nat) + "-"@ + decimal(nonce as nat) + ".sock"@
}

/// The file name of the control socket of a session started by process `pid`
/// at time `nonce` (nanoseconds since the Unix epoch).
pub fn socket_file_name(pid: u32, nonce: u128) -> (name: String)
    ensures
        name@ == socket_name(pid, nonce),
{
    let mut out = chars_of("autotun-");
    push_decimal(&mut out, pid as u128);
    push_str(&mut out, "-");
    push_decimal(&mut out, nonce);
    push_str(&mut out, ".sock");
    string_of(&out)
}

// ---------------------------------------------------------------------------
// SSH operations
// ---------------------------------------------------------------------------

/// A check of what speaks on a forwarded port.
#[derive(Clone, Copy, Debug, PartialEq, Eq, Structural)]
pub enum Probe {
    /// Send a TLS ClientHello; a TLS record in reply means TLS.
    Tls,
    /// Ask for a WebSocket upgrade; `101` in reply means WebSocket.
    WebSocket,
    /// Send `HEAD /`; an `HTTP/` reply means HTTP.
    Http,
}

/// An operation for the caller to perform.
#[derive(Clone, Copy, Debug, PartialEq, Eq, Structural)]
pub enum SshRequest {
    /// Bind `127.0.0.1:port` locally and release it at once: is it free?
    TryBind { port: u16 },
    /// `ssh -O forward` of `127.0.0.1:bind` to `127.0.0.1:source`.
    Forward { direction: Direction, bind: u16, source: u16 },
    /// `ssh -O cancel` of that forward.
    Cancel { direction: Direction, bind: u16, source: u16 },
    /// Connect to `127.0.0.1:port`, send the probe's request and read its
    /// reply (see [`probe_request`] and [`probe_reply_size`]).
    Probe { port: u16, probe: Probe },
}

/// The outcome of an [`SshRequest`].
#[derive(Clone, Debug, PartialEq, Eq)]
pub enum SshReply {
    /// The bind, forward or cancel succeeded.
    Success,
    /// It failed, with this message.
    Failure(String),
    /// The bytes a probe read (`None` when connecting, writing or reading
    /// failed).
    Received(Option<Vec<u8>>),
}

/// A reply as plain values.
pub enum ReplyView {
    Success,
    Failure(Seq<char>),
    Received(Option<Seq<u8>>),
}

impl View for SshReply {
    type V = ReplyView;

    open spec fn view(&self) -> ReplyView {
        match self {
            SshReply::Success => ReplyView::Success,
            SshReply::Failure(m) => ReplyView::Failure(m@),
            SshReply::Received(b) => ReplyView::Received(
                match b {
                    Some(v) => Some(v@),
                    None => None,
                },
            ),
        }
    }
}

/// The message of a failed reply (empty for any other reply).
pub open spec fn failure_text(r: ReplyView) -> Seq<char> {
    match r {
        ReplyView::Failure(m) => m,
        _ => seq![],
    }
}

/// The bytes a probe reply holds (none for any other reply).
pub open spec fn received(r: ReplyView) -> Option<Seq<u8>> {
    match r {
        ReplyView::Received(b) => b,
        _ => None,
    }
}

// ---------------------------------------------------------------------------
// Protocol probes
// ---------------------------------------------------------------------------

/// A minimal TLS 1.2 ClientHello.
pub open spec fn tls_client_hello() -> Seq<u8> {
    seq![
        0x16u8, 0x03, 0x01, 0x00, 0x2f, 0x01, 0x00, 0x00, 0x2b, 0x03, 0x03, 0x00, 0x00, 0x00, 0x00,
        0x00, 0x00, 0x00, 0x00, 0x00, 0x00, 0x00, 0x00, 0x00, 0x00, 0x00, 0x00, 0x00, 0x00, 0x00,
        0x00, 0x00, 0x00, 0x00, 0x00, 0x00, 0x00, 0x00, 0x00, 0x00, 0x00, 0x00, 0x00, 0x00, 0x00,
        0x00, 0x04, 0x00, 0x2f, 0x00, 0x35, 0x01, 0x00,
    ]
}

/// The bytes sent by a probe.
pub open spec fn probe_payload(probe: Probe) -> Seq<u8> {
    match probe {
        Probe::Tls => tls_client_hello(),
        Probe::WebSocket => vstd::utf8::encode_utf8(
            "GET / HTTP/1.1\r\nHost: 127.0.0.1\r\nUpgrade: websocket\r\nConnection: Upgrade\r\nSec-WebSocket-Key: dGhlIHNhbXBsZSBub25jZQ==\r\nSec-WebSocket-Version: 13\r\n\r\n"@,
        ),
        Probe::Http => vstd::utf8::encode_utf8("HEAD / HTTP/1.0\r\nHost: 127.0.0.1\r\n\r\n"@),
    }
}

/// The bytes a probe sends.
pub fn probe_request(probe: Probe) -> (bytes: Vec<u8>)
    ensures
        bytes@ == probe_payload(probe),
{
    match probe {
        Probe::Tls => {
            let hello: Vec<u8> = vec![
                0x16u8, 0x03, 0x01, 0x00, 0x2f, 0x01, 0x00, 0x00, 0x2b, 0x03, 0x03, 0x00, 0x00,
                0x00, 0x00, 0x00, 0x00, 0x00, 0x00, 0x00, 0x00, 0x00, 0x00, 0x00, 0x00, 0x00,
                0x00, 0x00, 0x00, 0x00, 0x00, 0x00, 0x00, 0x00, 0x00, 0x00, 0x00, 0x00, 0x00,
                0x00, 0x00, 0x00, 0x00, 0x00, 0x00, 0x00, 0x04, 0x00, 0x2f, 0x00, 0x35, 0x01,
                0x00,
            ];
            assert(hello@ == tls_client_hello());
            hello
        },
        Probe::WebSocket => {
            let text = "GET / HTTP/1.1\r\nHost: 127.0.0.1\r\nUpgrade: websocket\r\nConnection: Upgrade\r\nSec-WebSocket-Key: dGhlIHNhbXBsZSBub25jZQ==\r\nSec-WebSocket-Version: 13\r\n\r\n";
            vstd::slice::slice_to_vec(text.as_bytes())
        },
        Probe::Http => {
            let text = "HEAD / HTTP/1.0\r\nHost: 127.0.0.1\r\n\r\n";
            vstd::slice::slice_to_vec(text.as_bytes())
        },
    }
}

/// How much of the reply a probe reads: exactly 5 bytes for TLS and HTTP,
/// and up to 32 bytes (`exact == false`) for WebSocket.
pub fn probe_reply_size(probe: Probe) -> (size: (usize, bool))
    ensures
        size == (match probe {
            Probe::WebSocket => (32usize, false),
            _ => (5usize, true),
        }),
{
    match probe {
        Probe::WebSocket => (32, false),
        _ => (5, true),
    }
}

/// `HTTP/`, the start of every HTTP reply.
pub open spec fn http_prefix() -> Seq<u8> {
    seq![72u8, 84, 84, 80, 47]
}

/// `HTTP/1.1 101`.
pub open spec fn upgrade_reply_11() -> Seq<u8> {
    seq![72u8, 84, 84, 80, 47, 49, 46, 49, 32, 49, 48, 49]
}

/// `HTTP/1.0 101`.
pub open spec fn upgrade_reply_10() -> Seq<u8> {
    seq![72u8, 84, 84, 80, 47, 49, 46, 48, 32, 49, 48, 49]
}

/// Whether a probe's reply shows the protocol it probes for: a TLS record
/// header (handshake or alert, version 3.x); `HTTP/1.1 101` or `HTTP/1.0 101`
/// in at least 12 bytes; an `HTTP/` status line.
pub open spec fn probe_hit(probe: Probe, reply: Option<Seq<u8>>) -> bool {
    match reply {
        None => false,
        Some(b) => match probe {
            Probe::Tls => b.len() == 5 && (b[0] == 0x15 || b[0] == 0x16) && b[1] == 0x03,
            Probe::Http => b == http_prefix(),
            Probe::WebSocket => b.len() >= 12 && (b.take(12) == upgrade_reply_11() || b.take(12)
                == upgrade_reply_10()),
        },
    }
}

/// Whether `b` begins with `prefix`.
fn bytes_start_with(b: &Vec<u8>, prefix: &Vec<u8>) -> (r: bool)
    ensures
        r == (prefix@.len() <= b@.len() && b@.take(prefix@.len() as int) == prefix@),
{
    if prefix.len() > b.len() {
        return false;
    }
    let mut i: usize = 0;
    while i < prefix.len()
        invariant
            prefix@.len() <= b@.len(),
            i <= prefix@.len(),
            forall|j: int| 0 <= j < i ==> b@[j] == prefix@[j],
        decreases prefix@.len() - i,
    {
        if b[i] != prefix[i] {
            assert(b@.take(prefix@.len() as int)[i as int] != prefix@[i as int]);
            return false;
        }
        i = i + 1;
    }
    assert(b@.take(prefix@.len() as int) == prefix@);
    true
}

/// Whether a probe's reply shows the protocol it probes for.
pub fn probe_matches(probe: Probe, reply: &Option<Vec<u8>>) -> (hit: bool)
    ensures
        hit == probe_hit(
            probe,
            match reply {
                Some(v) => Some(v@),
                None => None,
            },
        ),
{
    match reply {
        None => false,
        Some(b) => match probe {
            Probe::Tls => b.len() == 5 && (b[0] == 0x15 || b[0] == 0x16) && b[1] == 0x03,
            Probe::Http => {
                let p: Vec<u8> = vec![72u8, 84, 84, 80, 47];
                let r = b.len() == 5 && bytes_start_with(b, &p);
                assert(r == (b@ == http_prefix())) by {
                    if b@.len() == 5 {
                        assert(b@.take(5) == b@);
                    }
                }
                r
            },
            Probe::WebSocket => {
                let a: Vec<u8> = vec![72u8, 84, 84, 80, 47, 49, 46, 49, 32, 49, 48, 49];
                let c: Vec<u8> = vec![72u8, 84, 84, 80, 47, 49, 46, 48, 32, 49, 48, 49];
                b.len() >= 12 && (bytes_start_with(b, &a) || bytes_start_with(b, &c))
            },
        },
    }
}

/// The protocol a probe detects.
pub open spec fn probe_protocol(probe: Probe) -> Protocol {
    match probe {
        Probe::Tls => Protocol::Https,
        Probe::WebSocket => Protocol::Ws,
        Probe::Http => Protocol::Http,
    }
}

/// The probe tried after `probe` missed: TLS, then WebSocket, then HTTP.
pub open spec fn next_probe(probe: Probe) -> Option<Probe> {
    match probe {
        Probe::Tls => Some(Probe::WebSocket),
        Probe::WebSocket => Some(Probe::Http),
        Probe::Http => None,
    }
}

// ---------------------------------------------------------------------------
// Enabling a tunnel
// ---------------------------------------------------------------------------

/// Where enabling a tunnel stands: which operation it waits for.
#[derive(Clone, Copy, Debug, PartialEq, Eq, Structural)]
pub enum EnableJob {
    /// A reverse forward from remote port `preferred + offset` was asked for.
    Reverse { preferred: u16, offset: u16 },
    /// Local port `preferred + offset` is being checked.
    LocalBind { preferred: u16, offset: u16 },
    /// A local forward from `port` was asked for.
    LocalForward { port: u16 },
    /// The forward on `port` is up; `probe` checks its protocol.
    LocalProbe { port: u16, probe: Probe },
}

/// Whether a job's ports are in range.
pub open spec fn job_ok(job: EnableJob) -> bool {
    match job {
        EnableJob::Reverse { preferred, offset } => offset <= MAX_PORT_FALLBACKS && preferred
            + offset <= 65535,
        EnableJob::LocalBind { preferred, offset } => offset <= MAX_PORT_FALLBACKS && preferred
            + offset <= 65535,
        _ => true,
    }
}

/// The operation a job waits for.
pub open spec fn job_request(t: TunnelView, job: EnableJob) -> SshRequest {
    match job {
        EnableJob::Reverse { preferred, offset } => SshRequest::Forward {
            direction: Direction::Reverse,
            bind: (preferred + offset) as u16,
            source: t.source_port,
        },
        EnableJob::LocalBind { preferred, offset } => SshRequest::TryBind {
            port: (preferred + offset) as u16,
        },
        EnableJob::LocalForward { port } => SshRequest::Forward {
            direction: Direction::Local,
            bind: port,
            source: t.source_port,
        },
        EnableJob::LocalProbe { port, probe } => SshRequest::Probe { port, probe },
    }
}

/// The first step of enabling: the error is cleared and the requested port is
/// tried first — on the remote host for a reverse tunnel, locally otherwise.
pub open spec fn enable_first(t: TunnelView) -> (TunnelView, EnableJob) {
    (
        TunnelView { error: None, ..t },
        if t.direction == Direction::Reverse {
            EnableJob::Reverse { preferred: t.requested_port, offset: 0 }
        } else {
            EnableJob::LocalBind { preferred: t.requested_port, offset: 0 }
        },
    )
}

/// The last port tried from `preferred`.
pub open spec fn last_candidate(preferred: u16) -> nat {
    if preferred + MAX_PORT_FALLBACKS <= 65535 {
        (preferred + MAX_PORT_FALLBACKS) as nat
    } else {
        65535
    }
}

/// Whether another port follows `preferred + offset`.
pub open spec fn has_next_port(preferred: u16, offset: u16) -> bool {
    offset < MAX_PORT_FALLBACKS && preferred + offset + 1 <= 65535
}

/// The message when no remote port could be forwarded.
pub open spec fn reverse_failed_text(preferred: u16, last_error: Seq<char>) -> Seq<char> {
    "ports "@ + decimal(preferred as nat) + ".."@ + decimal(last_candidate(preferred)) + " failed: "@
        + last_error
}

/// The message when no local port was free.
pub open spec fn allocation_failed_text(preferred: u16) -> Seq<char> {
    "allocation failed: ports "@ + decimal(preferred as nat) + " through "@ + decimal(
        last_candidate(preferred),
    ) + " are unavailable"@
}

/// One step of enabling: the tunnel after the reply, and the job that follows
/// (none when enabling is over).
///
/// - A reverse forward that succeeds is enabled on that port; on failure the
///   next port is tried, and after the last one the tunnel keeps the error.
/// - A free local port is forwarded; when none of the ports is free the
///   tunnel keeps an allocation error.
/// - A local forward that succeeds is enabled, then its protocol is probed:
///   TLS, WebSocket, HTTP, else plain TCP. A forward that fails keeps the error.
pub open spec fn enable_next(t: TunnelView, job: EnableJob, reply: ReplyView) -> (TunnelView, Option<EnableJob>) {
    match job {
        EnableJob::Reverse { preferred, offset } => if reply is Success {
            (
                TunnelView { bind_port: Some((preferred + offset) as u16), enabled: true, ..t },
                None,
            )
        } else if has_next_port(preferred, offset) {
            (t, Some(EnableJob::Reverse { preferred, offset: (offset + 1) as u16 }))
        } else {
            (
                TunnelView {
                    error: Some(reverse_failed_text(preferred, failure_text(reply))),
                    ..t
                },
                None,
            )
        },
        EnableJob::LocalBind { preferred, offset } => if reply is Success {
            (t, Some(EnableJob::LocalForward { port: (preferred + offset) as u16 }))
        } else if has_next_port(preferred, offset) {
            (t, Some(EnableJob::LocalBind { preferred, offset: (offset + 1) as u16 }))
        } else {
            (TunnelView { error: Some(allocation_failed_text(preferred)), ..t }, None)
        },
        EnableJob::LocalForward { port } => if reply is Success {
            (
                TunnelView { bind_port: Some(port), enabled: true, ..t },
                Some(EnableJob::LocalProbe { port, probe: Probe::Tls }),
            )
        } else {
            (TunnelView { error: Some("forward failed: "@ + failure_text(reply)), ..t }, None)
        },
        EnableJob::LocalProbe { port, probe } => if probe_hit(probe, received(reply)) {
            (TunnelView { protocol: probe_protocol(probe), ..t }, None)
        } else {
            match next_probe(probe) {
                Some(p) => (t, Some(EnableJob::LocalProbe { port, probe: p })),
                None => (TunnelView { protocol: Protocol::Tcp, ..t }, None),
            }
        },
    }
}

/// Start enabling a tunnel: the error is cleared, and the returned job tells
/// which operation comes first ([`enable_request`]).
pub fn enable_start(tunnel: &mut Tunnel) -> (job: EnableJob)
    ensures
        (final(tunnel)@, job) == enable_first(old(tunnel)@),
        job_ok(job),
{
    tunnel.error = None;
    if tunnel.direction == Direction::Reverse {
        EnableJob::Reverse { preferred: tunnel.requested_port, offset: 0 }
    } else {
        EnableJob::LocalBind { preferred: tunnel.requested_port, offset: 0 }
    }
}

/// The operation an enabling job waits for.
pub fn enable_request(tunnel: &Tunnel, job: &EnableJob) -> (request: SshRequest)
    requires
        job_ok(*job),
    ensures
        request == job_request(tunnel@, *job),
{
    match *job {
        EnableJob::Reverse { preferred, offset } => SshRequest::Forward {
            direction: Direction::Reverse,
            bind: preferred + offset,
            source: tunnel.source_port,
        },
        EnableJob::LocalBind { preferred, offset } => SshRequest::TryBind { port: preferred + offset },
        EnableJob::LocalForward { port } => SshRequest::Forward {
            direction: Direction::Local,
            bind: port,
            source: tunnel.source_port,
        },
        EnableJob::LocalProbe { port, probe } => SshRequest::Probe { port, probe },
    }
}

/// The last port tried from `preferred`.
fn last_port(preferred: u16) -> (p: u16)
    ensures
        p == last_candidate(preferred),
{
    if preferred <= 65535 - MAX_PORT_FALLBACKS {
        preferred + MAX_PORT_FALLBACKS
    } else {
        65535
    }
}

/// The message of a failed reply.
fn reply_failure(reply: &SshReply) -> (m: Vec<char>)
    ensures
        m@ == failure_text(reply@),
{
    match reply {
        SshReply::Failure(m) => chars_of(m.as_str()),
        _ => Vec::new(),
    }
}

/// Apply the outcome of the operation a job waited for; returns the next job,
/// or `None` when enabling is over.
pub fn enable_step(tunnel: &mut Tunnel, job: EnableJob, reply: SshReply) -> (next: Option<EnableJob>)
    requires
        job_ok(job),
    ensures
        (final(tunnel)@, next) == enable_next(old(tunnel)@, job, reply@),
        next matches Some(j) ==> job_ok(j),
{
    let success = match reply {
        SshReply::Success => true,
        _ => false,
    };
    match job {
        EnableJob::Reverse { preferred, offset } => {
            if success {
                tunnel.bind_port = Some(preferred + offset);
                tunnel.enabled = true;
                None
            } else if offset < MAX_PORT_FALLBACKS && preferred as u32 + offset as u32 + 1 <= 65535 {
                Some(EnableJob::Reverse { preferred, offset: offset + 1 })
            } else {
                let mut msg = chars_of("ports ");
                push_decimal(&mut msg, preferred as u128);
                push_str(&mut msg, "..");
                push_decimal(&mut msg, last_port(preferred) as u128);
                push_str(&mut msg, " failed: ");
                let mut detail = reply_failure(&reply);
                msg.append(&mut detail);
                tunnel.error = Some(string_of(&msg));
                None
            }
        },
        EnableJob::LocalBind { preferred, offset } => {
            if success {
                Some(EnableJob::LocalForward { port: preferred + offset })
            } else if offset < MAX_PORT_FALLBACKS && preferred as u32 + offset as u32 + 1 <= 65535 {
                Some(EnableJob::LocalBind { preferred, offset: offset + 1 })
            } else {
                let mut msg = chars_of("allocation failed: ports ");
                push_decimal(&mut msg, preferred as u128);
                push_str(&mut msg, " through ");
                push_decimal(&mut msg, last_port(preferred) as u128);
                push_str(&mut msg, " are unavailable");
                tunnel.error = Some(string_of(&msg));
                None
            }
        },
        EnableJob::LocalForward { port } => {
            if success {
                tunnel.bind_port = Some(port);
                tunnel.enabled = true;
                Some(EnableJob::LocalProbe { port, probe: Probe::Tls })
            } else {
                let mut msg = chars_of("forward failed: ");
                let mut detail = reply_failure(&reply);
                msg.append(&mut detail);
                tunnel.error = Some(string_of(&msg));
                None
            }
        },
        EnableJob::LocalProbe { port, probe } => {
            let bytes: Option<Vec<u8>> = match reply {
                SshReply::Received(b) => b,
                _ => None,
            };
            if probe_matches(probe, &bytes) {
                tunnel.protocol = match probe {
                    Probe::Tls => Protocol::Https,
                    Probe::WebSocket => Protocol::Ws,
                    Probe::Http => Protocol::Http,
                };
                None
            } else {
                match probe {
                    Probe::Tls => Some(EnableJob::LocalProbe { port, probe: Probe::WebSocket }),
                    Probe::WebSocket => Some(EnableJob::LocalProbe { port, probe: Probe::Http }),
                    Probe::Http => {
                        tunnel.protocol = Protocol::Tcp;
                        None
                    },
                }
            }
        },
    }
}


// ---------------------------------------------------------------------------
// Toggling, editing, deleting
// ---------------------------------------------------------------------------

/// How a toggle starts: by cancelling the active forward, or by enabling.
#[derive(Clone, Copy, Debug, PartialEq, Eq, Structural)]
pub enum ToggleStart {
    Cancel(SshRequest),
    Enable(EnableJob),
}

/// The cancel request for a tunnel's active forward.
pub open spec fn cancel_of(t: TunnelView) -> SshRequest {
    SshRequest::Cancel { direction: t.direction, bind: t.bind_port->0, source: t.source_port }
}

/// Start toggling a tunnel. The error is cleared; an enabled tunnel's forward
/// is cancelled, while a disabled tunnel is no longer marked as turned off by
/// hand and starts enabling.
pub fn toggle_start(tunnel: &mut Tunnel) -> (start: ToggleStart)
    requires
        bound_when_enabled(old(tunnel)@),
    ensures
        old(tunnel)@.enabled ==> final(tunnel)@ == (TunnelView { error: None, ..old(tunnel)@ })
            && start == ToggleStart::Cancel(cancel_of(old(tunnel)@)),
        !old(tunnel)@.enabled ==> ({
            let (t, job) = enable_first(TunnelView { manual_off: false, error: None, ..old(tunnel)@ });
            final(tunnel)@ == t && start == ToggleStart::Enable(job) && job_ok(job)
        }),
{
    tunnel.error = None;
    if tunnel.enabled {
        let bind = tunnel.bind_port.unwrap();
        return ToggleStart::Cancel(
            SshRequest::Cancel { direction: tunnel.direction, bind, source: tunnel.source_port },
        );
    }
    tunnel.manual_off = false;
    ToggleStart::Enable(enable_start(tunnel))
}

/// A message made of a prefix and a failed reply's message.
fn failure_message(prefix: &str, reply: &SshReply) -> (m: String)
    ensures
        m@ == prefix@ + failure_text(reply@),
{
    let mut msg = chars_of(prefix);
    let mut detail = reply_failure(reply);
    msg.append(&mut detail);
    string_of(&msg)
}

/// Finish toggling off: a cancelled forward leaves the tunnel off and marked
/// as turned off by hand; a failed cancel leaves it on with the error.
pub fn toggle_cancelled(tunnel: &mut Tunnel, reply: SshReply)
    ensures
        reply@ is Success ==> final(tunnel)@ == (TunnelView { enabled: false, manual_off: true, ..old(tunnel)@ }),
        !(reply@ is Success) ==> final(tunnel)@ == (TunnelView {
            error: Some("cancel failed: "@ + failure_text(reply@)),
            ..old(tunnel)@
        }),
{
    match reply {
        SshReply::Success => {
            tunnel.enabled = false;
            tunnel.manual_off = true;
        },
        _ => {
            tunnel.error = Some(failure_message("cancel failed: ", &reply));
        },
    }
}

/// How an edit starts.
#[derive(Clone, Copy, Debug, PartialEq, Eq, Structural)]
pub enum EditStart {
    /// Nothing to edit (no such tunnel, or an enabled one without a port).
    Skip,
    /// Cancel the tunnel's active forward first.
    Cancel(SshRequest),
    /// Replace the tunnel at once.
    Replace,
}

/// How editing the tunnel at `index` starts.
pub open spec fn edit_first(ts: Seq<TunnelView>, index: int, was_enabled: bool) -> EditStart {
    if index < 0 || index >= ts.len() {
        EditStart::Skip
    } else if was_enabled {
        match ts[index].bind_port {
            None => EditStart::Skip,
            Some(b) => EditStart::Cancel(
                SshRequest::Cancel {
                    direction: ts[index].direction,
                    bind: b,
                    source: ts[index].source_port,
                },
            ),
        }
    } else {
        EditStart::Replace
    }
}

/// Start editing the tunnel at `index`; `was_enabled` tells whether it was on
/// when the edit form opened.
pub fn edit_start(tunnels: &Vec<Tunnel>, index: usize, was_enabled: bool) -> (start: EditStart)
    ensures
        start == edit_first(tunnel_views(tunnels@), index as int, was_enabled),
{
    if index >= tunnels.len() {
        return EditStart::Skip;
    }
    let existing = &tunnels[index];
    if was_enabled {
        match existing.bind_port {
            None => EditStart::Skip,
            Some(b) => EditStart::Cancel(
                SshRequest::Cancel { direction: existing.direction, bind: b, source: existing.source_port },
            ),
        }
    } else {
        EditStart::Replace
    }
}

/// The outcome of cancelling before an edit: whether the edit goes on. When
/// the cancel failed, the tunnel keeps the error and the edit stops.
pub fn edit_cancelled(tunnels: &mut Vec<Tunnel>, index: usize, reply: SshReply) -> (go_on: bool)
    requires
        index < old(tunnels)@.len(),
    ensures
        go_on == reply@ is Success,
        go_on ==> final(tunnels)@ == old(tunnels)@,
        !go_on ==> final(tunnels)@.len() == old(tunnels)@.len() && tunnel_views(final(tunnels)@) == tunnel_views(old(tunnels)@).update(
            index as int,
            TunnelView {
                error: Some("edit cancel failed: "@ + failure_text(reply@)),
                ..old(tunnels)@[index as int]@
            },
        ),
{
    match reply {
        SshReply::Success => true,
        _ => {
            let mut t = copy_tunnel(&tunnels[index]);
            t.error = Some(failure_message("edit cancel failed: ", &reply));
            let ghost before = tunnel_views(tunnels@);
            tunnels[index] = t;
            assert(tunnel_views(tunnels@) =~= before.update(index as int, t@));
            false
        },
    }
}

/// Ready the replacement of the tunnel at `index`: it keeps the old tunnel's
/// origin and presence; a tunnel that was on is enabled again (the returned
/// job), one that was off keeps its turned-off-by-hand mark.
pub fn edit_prepare(tunnels: &Vec<Tunnel>, index: usize, replacement: &mut Tunnel, was_enabled: bool) -> (job: Option<EnableJob>)
    requires
        index < tunnels@.len(),
    ensures
        ({
            let e = tunnels@[index as int]@;
            let r = TunnelView { discovered: e.discovered, present: e.present, ..old(replacement)@ };
            if was_enabled {
                let (t, j) = enable_first(r);
                final(replacement)@ == t && job == Some(j) && job_ok(j)
            } else {
                final(replacement)@ == (TunnelView { manual_off: e.manual_off, ..r }) && job is None
            }
        }),
{
    let existing = &tunnels[index];
    replacement.discovered = existing.discovered;
    replacement.present = existing.present;
    if was_enabled {
        Some(enable_start(replacement))
    } else {
        replacement.manual_off = existing.manual_off;
        None
    }
}

/// Put the replacement in place of the tunnel at `index`.
pub fn edit_finish(tunnels: &mut Vec<Tunnel>, index: usize, replacement: Tunnel)
    requires
        index < old(tunnels)@.len(),
    ensures
        final(tunnels)@ == old(tunnels)@.update(index as int, replacement),
{
    tunnels[index] = replacement;
}

/// Start deleting the tunnel at `index`: an enabled tunnel's forward is
/// cancelled first.
pub fn delete_start(tunnels: &Vec<Tunnel>, index: usize) -> (cancel: Option<SshRequest>)
    requires
        index < tunnels@.len(),
        bound_when_enabled(tunnels@[index as int]@),
    ensures
        tunnels@[index as int].enabled ==> cancel == Some(cancel_of(tunnels@[index as int]@)),
        !tunnels@[index as int].enabled ==> cancel is None,
{
    let t = &tunnels[index];
    if t.enabled {
        Some(SshRequest::Cancel { direction: t.direction, bind: t.bind_port.unwrap(), source: t.source_port })
    } else {
        None
    }
}

/// Finish deleting the tunnel at `index`; `reply` is the cancel's outcome
/// (`Success` when nothing had to be cancelled). A failed cancel keeps the
/// tunnel with the error. A discovered tunnel stays listed, off and marked as
/// turned off by hand, so that scans do not bring it back; any other tunnel
/// is removed.
pub fn delete_finish(tunnels: &mut Vec<Tunnel>, index: usize, reply: SshReply)
    requires
        index < old(tunnels)@.len(),
    ensures
        ({
            let ts = tunnel_views(old(tunnels)@);
            let t = ts[index as int];
            let after = tunnel_views(final(tunnels)@);
            if !(reply@ is Success) {
                after == ts.update(
                    index as int,
                    TunnelView { error: Some("delete failed: "@ + failure_text(reply@)), ..t },
                )
            } else if t.discovered {
                after == ts.update(
                    index as int,
                    TunnelView { enabled: false, manual_off: true, error: None, ..t },
                )
            } else {
                after == ts.remove(index as int)
            }
        }),
{
    let ghost before = tunnel_views(tunnels@);
    match reply {
        SshReply::Success => {
            if tunnels[index].discovered {
                let mut t = copy_tunnel(&tunnels[index]);
                t.enabled = false;
                t.manual_off = true;
                t.error = None;
                tunnels[index] = t;
                assert(tunnel_views(tunnels@) =~= before.update(index as int, t@));
            } else {
                tunnels.remove(index);
                assert(tunnel_views(tunnels@) =~= before.remove(index as int));
            }
        },
        _ => {
            let mut t = copy_tunnel(&tunnels[index]);
            t.error = Some(failure_message("delete failed: ", &reply));
            tunnels[index] = t;
            assert(tunnel_views(tunnels@) =~= before.update(index as int, t@));
        },
    }
}

// ---------------------------------------------------------------------------
// Scans and reconnects
// ---------------------------------------------------------------------------

/// The cancel of a scan's `Cancel` action, on the local side.
pub fn scan_cancel_request(bind: u16, source: u16) -> (request: SshRequest)
    ensures
        request == (SshRequest::Cancel { direction: Direction::Local, bind, source }),
{
    SshRequest::Cancel { direction: Direction::Local, bind, source }
}

/// The outcome of cancelling the forward of the tunnel at `index` after its
/// service went away: it is off, or keeps the error.
pub fn scan_cancel_finished(tunnels: &mut Vec<Tunnel>, index: usize, reply: SshReply)
    ensures
        ({
            let ts = tunnel_views(old(tunnels)@);
            let after = tunnel_views(final(tunnels)@);
            if index >= ts.len() {
                after == ts
            } else if reply@ is Success {
                after == ts.update(index as int, TunnelView { enabled: false, ..ts[index as int] })
            } else {
                after == ts.update(
                    index as int,
                    TunnelView {
                        error: Some("cancel failed: "@ + failure_text(reply@)),
                        ..ts[index as int]
                    },
                )
            }
        }),
{
    let ghost before = tunnel_views(tunnels@);
    if index >= tunnels.len() {
        return;
    }
    let mut t = copy_tunnel(&tunnels[index]);
    match reply {
        SshReply::Success => {
            t.enabled = false;
        },
        _ => {
            t.error = Some(failure_message("cancel failed: ", &reply));
        },
    }
    tunnels[index] = t;
    assert(tunnel_views(tunnels@) =~= before.update(index as int, t@));
}

/// A tunnel as it is after the connection was lost: off, unbound, no error.
pub open spec fn reset_view(t: TunnelView) -> TunnelView {
    TunnelView { enabled: false, bind_port: None, error: None, ..t }
}

/// After a reconnect, before the new scan: remember which tunnels were on,
/// and turn every tunnel off (the old forwards died with the connection).
pub fn restore_reset(tunnels: &mut Vec<Tunnel>) -> (wanted: Vec<bool>)
    ensures
        wanted@.len() == old(tunnels)@.len(),
        final(tunnels)@.len() == old(tunnels)@.len(),
        forall|i: int| 0 <= i < wanted@.len() ==> wanted@[i] == old(tunnels)@[i].enabled,
        forall|i: int| 0 <= i < wanted@.len() ==> (#[trigger] final(tunnels)@[i])@ == reset_view(old(tunnels)@[i]@),
{
    let ghost original = tunnels@;
    let mut wanted: Vec<bool> = Vec::new();
    let mut i: usize = 0;
    while i < tunnels.len()
        invariant
            i <= tunnels@.len(),
            tunnels@.len() == original.len(),
            wanted@.len() == i,
            forall|j: int| 0 <= j < i ==> wanted@[j] == original[j].enabled,
            forall|j: int| 0 <= j < i ==> (#[trigger] tunnels@[j])@ == reset_view(original[j]@),
            forall|j: int| i <= j < tunnels@.len() ==> #[trigger] tunnels@[j] == original[j],
        decreases tunnels@.len() - i,
    {
        let mut t = copy_tunnel(&tunnels[i]);
        wanted.push(t.enabled);
        t.enabled = false;
        t.bind_port = None;
        t.error = None;
        tunnels[i] = t;
        i = i + 1;
    }
    wanted
}

/// Whether the tunnel at `index`, on before the reconnect, must be enabled
/// again: it is still off after the scan, and it is a reverse tunnel or its
/// remote service is present.
pub open spec fn wants_restore(ts: Seq<TunnelView>, index: int, was_enabled: bool) -> bool {
    &&& was_enabled
    &&& 0 <= index < ts.len()
    &&& !ts[index].enabled
    &&& (ts[index].direction == Direction::Reverse || ts[index].present)
}

/// What the background scanner reports.
pub enum ScanEvent {
    /// A scan of the remote listeners succeeded.
    Ports(Vec<RemoteListener>),
    /// The connection was established again and its first scan succeeded.
    Reconnected(Vec<RemoteListener>),
    /// The scan failed.
    Error,
}

/// What follows a scanner report.
pub enum ScanStep {
    /// Carry out the actions of the scan.
    Reconcile(Vec<ScanAction>),
    /// Carry out the actions of the scan, then enable again each tunnel whose
    /// flag is set and for which [`restore_wanted`] holds.
    Restore(Vec<ScanAction>, Vec<bool>),
    /// The connection is down; nothing changes.
    Disconnected,
}

/// The tunnels as they are right after a reconnect.
pub open spec fn reset_all(ts: Seq<TunnelView>) -> Seq<TunnelView> {
    ts.map_values(|t: TunnelView| reset_view(t))
}

/// What the controller does with a scanner report. A successful scan is
/// reconciled; after a reconnect every tunnel is first reset, and the ones
/// that were on are remembered; a failed scan marks the connection down and
/// leaves every tunnel as it was.
pub fn scan_event_step(tunnels: &mut Vec<Tunnel>, event: ScanEvent, auto_forward: bool) -> (step: ScanStep)
    requires
        event matches ScanEvent::Ports(found) ==> forall|i: int|
            0 <= i < old(tunnels)@.len() ==> !scan_panics(
                #[trigger] old(tunnels)@[i]@,
                listener_views(found@),
            ),
    ensures
        match event {
            ScanEvent::Ports(found) => step matches ScanStep::Reconcile(actions) && tunnel_views(
                final(tunnels)@,
            ) == scanned_all(tunnel_views(old(tunnels)@), listener_views(found@)) && action_views(
                actions@,
            ) == plan_actions(tunnel_views(old(tunnels)@), listener_views(found@), auto_forward),
            ScanEvent::Reconnected(found) => step matches ScanStep::Restore(actions, wanted)
                && wanted@.len() == old(tunnels)@.len() && (forall|i: int|
                0 <= i < wanted@.len() ==> wanted@[i] == old(tunnels)@[i].enabled) && tunnel_views(
                final(tunnels)@,
            ) == scanned_all(reset_all(tunnel_views(old(tunnels)@)), listener_views(found@))
                && action_views(actions@) == plan_actions(
                reset_all(tunnel_views(old(tunnels)@)),
                listener_views(found@),
                auto_forward,
            ),
            ScanEvent::Error => step is Disconnected && final(tunnels)@ == old(tunnels)@,
        },
{
    match event {
        ScanEvent::Ports(found) => {
            let actions = plan_scan(tunnels, found.as_slice(), auto_forward);
            ScanStep::Reconcile(actions)
        },
        ScanEvent::Reconnected(found) => {
            let ghost before = tunnel_views(tunnels@);
            let wanted = restore_reset(tunnels);
            assert(tunnel_views(tunnels@) =~= reset_all(before));
            let actions = plan_scan(tunnels, found.as_slice(), auto_forward);
            ScanStep::Restore(actions, wanted)
        },
        ScanEvent::Error => ScanStep::Disconnected,
    }
}

/// The tunnels after a reconnect when every operation succeeds: every tunnel
/// is reset, the first scan is applied in memory, and each tunnel that was on
/// and is wanted again ([`wants_restore`]) is switched on.
pub open spec fn restored_in_memory(ts: Seq<TunnelView>, found: Seq<ListenerView>, auto_forward: bool) -> Seq<TunnelView> {
    let r = memory_result(reset_all(ts), found, auto_forward);
    Seq::new(
        r.len(),
        |i: int|
            if i < ts.len() && wants_restore(r, i, ts[i].enabled) {
                enabled_in_memory(r[i])
            } else {
                r[i]
            },
    )
}

/// Active tunnels come back after a reconnect. A tunnel that was on before
/// the connection was lost is on again afterwards when it is a reverse tunnel
/// or its remote service is still present after the first scan (in
/// particular when it is listed again); a tunnel that was off and turned off
/// by hand stays off; every tunnel keeps its place, direction and service
/// port.
pub proof fn reconnect_restores_active_tunnels(ts: Seq<TunnelView>, found: Seq<ListenerView>, auto_forward: bool)
    requires
        ts.len() <= usize::MAX,
    ensures
        ({
            let r = restored_in_memory(ts, found, auto_forward);
            let s = scanned_all(reset_all(ts), found);
            &&& r.len() >= ts.len()
            &&& forall|i: int|
                0 <= i < ts.len() ==> (#[trigger] r[i]).direction == ts[i].direction && r[i].source_port
                    == ts[i].source_port
            &&& forall|i: int|
                0 <= i < ts.len() && ts[i].enabled && (ts[i].direction == Direction::Reverse
                    || s[i].present) ==> (#[trigger] r[i]).enabled
            &&& forall|i: int|
                0 <= i < ts.len() && ts[i].enabled && ts[i].direction == Direction::Local
                    && crate::scan::lists_port(found, ts[i].source_port) ==> (#[trigger] s[i]).present
            &&& forall|i: int|
                0 <= i < ts.len() && !ts[i].enabled && ts[i].manual_off ==> !(#[trigger] r[i]).enabled
        }),
{
    let rs = reset_all(ts);
    let m = memory_result(rs, found, auto_forward);
    let r = restored_in_memory(ts, found, auto_forward);
    let s = scanned_all(rs, found);
    assert forall|i: int| 0 <= i < ts.len() implies #[trigger] m[i] == in_memory(
        rs[i],
        i,
        found,
        auto_forward,
    ) && rs[i] == reset_view(ts[i]) && s[i] == scanned(rs[i], found) by {}
    assert forall|i: int|
        0 <= i < ts.len() && ts[i].enabled && ts[i].direction == Direction::Local
            && crate::scan::lists_port(found, ts[i].source_port) implies (#[trigger] s[i]).present by {
        crate::scan::lemma_first_listener_lists(found, ts[i].source_port);
    }
    assert forall|i: int|
        0 <= i < ts.len() && ts[i].enabled && (ts[i].direction == Direction::Reverse || s[i].present)
            implies (#[trigger] r[i]).enabled by {
        assert(m[i].present == s[i].present);
        if !m[i].enabled {
            assert(wants_restore(m, i, ts[i].enabled));
        }
    }
}

/// Whether the tunnel at `index` must be enabled again after a reconnect.
pub fn restore_wanted(tunnels: &Vec<Tunnel>, index: usize, was_enabled: bool) -> (b: bool)
    ensures
        b == wants_restore(tunnel_views(tunnels@), index as int, was_enabled),
{
    if !was_enabled || index >= tunnels.len() {
        return false;
    }
    let t = &tunnels[index];
    !t.enabled && (t.direction == Direction::Reverse || t.present)
}

/// The tunnels of a new session: one per listener found, then one reverse
/// tunnel per requested reverse port.
pub fn initial_tunnels(found: Vec<RemoteListener>, reverse_ports: &[u16]) -> (tunnels: Vec<Tunnel>)
    ensures
        tunnel_views(tunnels@) == listener_views(found@).map_values(|l: ListenerView| listener_tunnel(l))
            + reverse_ports@.map_values(|p: u16| new_tunnel(Direction::Reverse, p, p, seq![], false)),
{
    let ghost fv = listener_views(found@);
    let mut tunnels: Vec<Tunnel> = Vec::new();
    let mut i: usize = 0;
    while i < found.len()
        invariant
            i <= found@.len(),
            fv == listener_views(found@),
            tunnel_views(tunnels@) == fv.take(i as int).map_values(|l: ListenerView| listener_tunnel(l)),
        decreases found@.len() - i,
    {
        let ghost before = tunnel_views(tunnels@);
        let t = tunnel_from_listener(crate::ports::copy_listener(&found[i]));
        assert(t@ == listener_tunnel(fv[i as int]));
        assert(fv.take(i + 1) == fv.take(i as int).push(fv[i as int]));
        tunnels.push(t);
        assert(tunnel_views(tunnels@) =~= before.push(t@));
        assert(fv.take(i + 1).map_values(|l: ListenerView| listener_tunnel(l)) =~= fv.take(
            i as int,
        ).map_values(|l: ListenerView| listener_tunnel(l)).push(listener_tunnel(fv[i as int])));
        i = i + 1;
    }
    assert(fv.take(found@.len() as int) == fv);
    let ghost locals = tunnel_views(tunnels@);
    let mut k: usize = 0;
    while k < reverse_ports.len()
        invariant
            k <= reverse_ports@.len(),
            locals == fv.map_values(|l: ListenerView| listener_tunnel(l)),
            tunnel_views(tunnels@) == locals + reverse_ports@.take(k as int).map_values(
                |p: u16| new_tunnel(Direction::Reverse, p, p, seq![], false),
            ),
        decreases reverse_ports@.len() - k,
    {
        let ghost before = tunnel_views(tunnels@);
        let t = Tunnel::reverse(reverse_ports[k]);
        assert(reverse_ports@.take(k + 1int) == reverse_ports@.take(k as int).push(reverse_ports@[k as int]));
        tunnels.push(t);
        assert(tunnel_views(tunnels@) =~= before.push(t@));
        assert(tunnel_views(tunnels@) =~= locals + reverse_ports@.take(k + 1int).map_values(
            |p: u16| new_tunnel(Direction::Reverse, p, p, seq![], false),
        ));
        k = k + 1;
    }
    assert(reverse_ports@.take(reverse_ports@.len() as int) == reverse_ports@);
    tunnels
}

/// Whether a tunnel of a new session is enabled at once: reverse tunnels
/// always, local ones when auto-forwarding.
pub fn enabled_at_start(direction: Direction, auto_forward: bool) -> (b: bool)
    ensures
        b == (direction == Direction::Reverse || auto_forward),
{
    direction == Direction::Reverse || auto_forward
}

// ---------------------------------------------------------------------------
// Laws of enabling
// ---------------------------------------------------------------------------

/// Enabling driven by a sequence of replies, one per operation, until it is
/// over.
pub open spec fn run_enable(t: TunnelView, job: Option<EnableJob>, replies: Seq<ReplyView>) -> (TunnelView, Option<EnableJob>)
    decreases replies.len(),
{
    if replies.len() == 0 {
        (t, job)
    } else {
        let (t1, j1) = run_enable(t, job, replies.drop_last());
        match j1 {
            None => (t1, None),
            Some(j) => enable_next(t1, j, replies.last()),
        }
    }
}

/// One failed reply per message, in order.
pub open spec fn failure_replies(es: Seq<Seq<char>>) -> Seq<ReplyView> {
    es.map_values(|e: Seq<char>| ReplyView::Failure(e))
}

proof fn lemma_failure_replies_drop_last(es: Seq<Seq<char>>)
    requires
        es.len() > 0,
    ensures
        failure_replies(es).drop_last() == failure_replies(es.drop_last()),
        failure_replies(es).last() == ReplyView::Failure(es.last()),
{
    assert(failure_replies(es).drop_last() =~= failure_replies(es.drop_last()));
}

/// If the requested local port cannot be bound, the next ports are tried in
/// order, up to five more and never past 65535, whatever each failure says:
/// after `k` failures the next port tried is the requested one plus `k`, and
/// when it is free it is forwarded; when none is free the tunnel stays
/// listed, off, with an allocation error naming the range.
pub proof fn busy_local_ports_fall_back_in_order(t: TunnelView, es: Seq<Seq<char>>)
    requires
        t.direction == Direction::Local,
        es.len() <= candidate_count(t.requested_port),
    ensures
        ({
            let (t0, job0) = enable_first(t);
            let p = t.requested_port;
            let k = es.len();
            let (tk, jk) = run_enable(t0, Some(job0), failure_replies(es));
            &&& k < candidate_count(p) ==> tk == t0 && jk == Some(
                EnableJob::LocalBind { preferred: p, offset: k as u16 },
            ) && job_request(tk, jk->0) == SshRequest::TryBind { port: (p + k) as u16 }
            &&& k < candidate_count(p) ==> run_enable(
                t0,
                Some(job0),
                failure_replies(es).push(ReplyView::Success),
            ) == (t0, Some(EnableJob::LocalForward { port: (p + k) as u16 }))
            &&& k == candidate_count(p) ==> jk is None && tk == (TunnelView {
                error: Some(allocation_failed_text(p)),
                ..t0
            })
        }),
    decreases es.len(),
{
    let (t0, job0) = enable_first(t);
    if es.len() > 0 {
        busy_local_ports_fall_back_in_order(t, es.drop_last());
        lemma_failure_replies_drop_last(es);
    } else {
        assert(failure_replies(es).len() == 0);
    }
    assert(failure_replies(es).push(ReplyView::Success).drop_last() == failure_replies(es));
}

/// A reverse tunnel asks for its requested remote port, then the next ones in
/// order after failures, up to five more and never past 65535, whatever each
/// failure says: after `k` failures the port asked for is the requested one
/// plus `k`, and a success enables the tunnel on it; after the last failure
/// the tunnel stays off with the range tried and the last error.
pub proof fn reverse_ports_fall_back_in_order(t: TunnelView, es: Seq<Seq<char>>)
    requires
        t.direction == Direction::Reverse,
        es.len() <= candidate_count(t.requested_port),
    ensures
        ({
            let (t0, job0) = enable_first(t);
            let p = t.requested_port;
            let k = es.len();
            let (tk, jk) = run_enable(t0, Some(job0), failure_replies(es));
            &&& k < candidate_count(p) ==> tk == t0 && jk == Some(
                EnableJob::Reverse { preferred: p, offset: k as u16 },
            ) && job_request(tk, jk->0) == SshRequest::Forward {
                direction: Direction::Reverse,
                bind: (p + k) as u16,
                source: t.source_port,
            }
            &&& k < candidate_count(p) ==> run_enable(
                t0,
                Some(job0),
                failure_replies(es).push(ReplyView::Success),
            ) == (TunnelView { bind_port: Some((p + k) as u16), enabled: true, ..t0 }, None::<EnableJob>)
            &&& k == candidate_count(p) ==> jk is None && tk == (TunnelView {
                error: Some(reverse_failed_text(p, es.last())),
                ..t0
            })
        }),
    decreases es.len(),
{
    if es.len() > 0 {
        reverse_ports_fall_back_in_order(t, es.drop_last());
        lemma_failure_replies_drop_last(es);
    } else {
        assert(failure_replies(es).len() == 0);
    }
    assert(failure_replies(es).push(ReplyView::Success).drop_last() == failure_replies(es));
}

/// Whether port `p + j` is among the ports that work.
pub open spec fn port_works(ok: Set<int>, p: u16, j: int) -> bool {
    ok.contains(p + j)
}

/// The replies to the attempts on the ports from `p` on, when the ports in
/// `ok` succeed and attempt `k` on any other fails with `es[k]`.
pub open spec fn attempt_replies(p: u16, ok: Set<int>, es: Seq<Seq<char>>, n: nat) -> Seq<ReplyView> {
    Seq::new(
        n,
        |k: int|
            if port_works(ok, p, k) {
                ReplyView::Success
            } else {
                ReplyView::Failure(es[k])
            },
    )
}

/// Once enabling is over, further replies change nothing.
proof fn lemma_run_enable_over(t: TunnelView, job: Option<EnableJob>, a: Seq<ReplyView>, b: Seq<ReplyView>)
    requires
        run_enable(t, job, a).1 is None,
    ensures
        run_enable(t, job, a + b) == run_enable(t, job, a),
    decreases b.len(),
{
    if b.len() > 0 {
        lemma_run_enable_over(t, job, a, b.drop_last());
        assert((a + b).drop_last() == a + b.drop_last());
    } else {
        assert(a + b == a);
    }
}

proof fn lemma_attempts_fail_before(p: u16, ok: Set<int>, es: Seq<Seq<char>>, n: nat, k: nat)
    requires
        k <= n,
        k <= es.len(),
        forall|j: int| 0 <= j < k ==> !port_works(ok, p, j),
    ensures
        attempt_replies(p, ok, es, n).take(k as int) == failure_replies(es.take(k as int)),
{
    assert(attempt_replies(p, ok, es, n).take(k as int) =~= failure_replies(es.take(k as int)));
}

/// Port fallback, over the whole run: the ports from the requested one on
/// are tried in order, up to five more and never past 65535. For a reverse
/// tunnel, the first port that succeeds is the one it is enabled on, and
/// later replies change nothing; when none succeeds the tunnel stays off with
/// the range tried and the error of the last attempt. For a local tunnel the
/// first free port is the one that is forwarded; when none is free the
/// tunnel keeps the allocation error.
pub proof fn port_fallback_takes_the_first_port_that_works(
    t: TunnelView,
    ok: Set<int>,
    es: Seq<Seq<char>>,
    k: nat,
)
    requires
        es.len() >= candidate_count(t.requested_port),
    ensures
        ({
            let p = t.requested_port;
            let c = candidate_count(p);
            let (t0, job0) = enable_first(t);
            let first_works = k < c && port_works(ok, p, k as int) && forall|j: int| 0 <= j < k ==> !port_works(ok, p, j);
            let none_works = forall|j: int| 0 <= j < c ==> !port_works(ok, p, j);
            &&& t.direction == Direction::Reverse && first_works ==> run_enable(
                t0,
                Some(job0),
                attempt_replies(p, ok, es, c),
            ) == (TunnelView { bind_port: Some((p + k) as u16), enabled: true, ..t0 }, None::<EnableJob>)
            &&& t.direction == Direction::Reverse && none_works ==> run_enable(
                t0,
                Some(job0),
                attempt_replies(p, ok, es, c),
            ) == (TunnelView { error: Some(reverse_failed_text(p, es[c - 1])), ..t0 }, None::<EnableJob>)
            &&& t.direction == Direction::Local && first_works ==> run_enable(
                t0,
                Some(job0),
                attempt_replies(p, ok, es, (k + 1) as nat),
            ) == (t0, Some(EnableJob::LocalForward { port: (p + k) as u16 }))
            &&& t.direction == Direction::Local && none_works ==> run_enable(
                t0,
                Some(job0),
                attempt_replies(p, ok, es, c),
            ) == (TunnelView { error: Some(allocation_failed_text(p)), ..t0 }, None::<EnableJob>)
        }),
{
    let p = t.requested_port;
    let c = candidate_count(p);
    let (t0, job0) = enable_first(t);
    let first_works = k < c && port_works(ok, p, k as int) && forall|j: int| 0 <= j < k ==> !port_works(ok, p, j);
    let none_works = forall|j: int| 0 <= j < c ==> !port_works(ok, p, j);
    if first_works {
        lemma_attempts_fail_before(p, ok, es, c, k);
        let pre = attempt_replies(p, ok, es, c).take(k + 1int);
        assert(pre == failure_replies(es.take(k as int)).push(ReplyView::Success)) by {
            lemma_attempts_fail_before(p, ok, es, c, k);
            assert(pre =~= attempt_replies(p, ok, es, c).take(k as int).push(ReplyView::Success));
        }
        assert(attempt_replies(p, ok, es, (k + 1) as nat) =~= pre);
        if t.direction == Direction::Reverse {
            reverse_ports_fall_back_in_order(t, es.take(k as int));
            assert(es.take(k as int).len() == k);
            lemma_run_enable_over(t0, Some(job0), pre, attempt_replies(p, ok, es, c).skip(k + 1int));
            assert(pre + attempt_replies(p, ok, es, c).skip(k + 1int) =~= attempt_replies(p, ok, es, c));
        } else {
            busy_local_ports_fall_back_in_order(t, es.take(k as int));
        }
    }
    if none_works {
        lemma_attempts_fail_before(p, ok, es, c, c);
        assert(attempt_replies(p, ok, es, c).take(c as int) == attempt_replies(p, ok, es, c));
        assert(es.take(c as int).last() == es[c - 1]);
        if t.direction == Direction::Reverse {
            reverse_ports_fall_back_in_order(t, es.take(c as int));
        } else {
            busy_local_ports_fall_back_in_order(t, es.take(c as int));
        }
    }
}

/// The replies when every operation of enabling succeeds: the forward (and,
/// for a local tunnel, the port check before it) succeeds, and no probe gets
/// an answer.
pub open spec fn all_succeed(t: TunnelView) -> Seq<ReplyView> {
    if t.direction == Direction::Reverse {
        seq![ReplyView::Success]
    } else {
        seq![
            ReplyView::Success,
            ReplyView::Success,
            ReplyView::Received(None),
            ReplyView::Received(None),
            ReplyView::Received(None),
        ]
    }
}

/// A tunnel enabled through the enable steps when every operation succeeds.
pub open spec fn enabled_by_steps(t: TunnelView) -> (TunnelView, Option<EnableJob>) {
    run_enable(enable_first(t).0, Some(enable_first(t).1), all_succeed(t))
}

/// When every operation succeeds, enabling ends with the tunnel on, on its
/// requested port, with its direction and service port unchanged.
pub proof fn enabling_succeeds_when_every_operation_does(t: TunnelView)
    ensures
        enabled_by_steps(t).1 is None,
        enabled_by_steps(t).0.enabled,
        enabled_by_steps(t).0.bind_port == Some(t.requested_port),
        enabled_by_steps(t).0.direction == t.direction,
        enabled_by_steps(t).0.source_port == t.source_port,
        enabled_by_steps(t).0.error is None,
{
    reveal_with_fuel(run_enable, 6);
    let r = all_succeed(t);
    if t.direction == Direction::Reverse {
        assert(r.drop_last() =~= Seq::<ReplyView>::empty());
    } else {
        assert(r.drop_last().drop_last().drop_last().drop_last().drop_last() =~= Seq::<ReplyView>::empty());
    }
}

/// The tunnels after a reconnect when every operation succeeds, with each
/// wanted tunnel enabled again through the enable steps.
pub open spec fn restored_by_steps(ts: Seq<TunnelView>, found: Seq<ListenerView>, auto_forward: bool) -> Seq<TunnelView> {
    let r = memory_result(reset_all(ts), found, auto_forward);
    Seq::new(
        r.len(),
        |i: int|
            if i < ts.len() && wants_restore(r, i, ts[i].enabled) {
                enabled_by_steps(r[i]).0
            } else {
                r[i]
            },
    )
}

/// Restoring after a reconnect through [`restore_wanted`] and the enable
/// steps, when every operation succeeds: a tunnel that was on comes back on
/// when it is a reverse tunnel or its service is still present after the
/// first scan; a tunnel that was off and turned off by hand stays off; every
/// tunnel keeps its place, direction and service port.
pub proof fn reconnect_restores_through_the_enable_steps(ts: Seq<TunnelView>, found: Seq<ListenerView>, auto_forward: bool)
    requires
        ts.len() <= usize::MAX,
    ensures
        ({
            let r = restored_by_steps(ts, found, auto_forward);
            let s = scanned_all(reset_all(ts), found);
            &&& r.len() >= ts.len()
            &&& forall|i: int|
                0 <= i < ts.len() ==> (#[trigger] r[i]).direction == ts[i].direction && r[i].source_port
                    == ts[i].source_port
            &&& forall|i: int|
                0 <= i < ts.len() && ts[i].enabled && (ts[i].direction == Direction::Reverse
                    || s[i].present) ==> (#[trigger] r[i]).enabled
            &&& forall|i: int|
                0 <= i < ts.len() && !ts[i].enabled && ts[i].manual_off ==> !(#[trigger] r[i]).enabled
        }),
{
    reconnect_restores_active_tunnels(ts, found, auto_forward);
    let m = memory_result(reset_all(ts), found, auto_forward);
    let r = restored_by_steps(ts, found, auto_forward);
    let q = restored_in_memory(ts, found, auto_forward);
    assert forall|i: int| 0 <= i < ts.len() implies (#[trigger] r[i]).direction == ts[i].direction
        && r[i].source_port == ts[i].source_port && (q[i].enabled ==> r[i].enabled) && (!q[i].enabled
        ==> r[i] == q[i]) by {
        enabling_succeeds_when_every_operation_does(m[i]);
        assert(q[i].direction == ts[i].direction && q[i].source_port == ts[i].source_port);
    }
}

/// The protocol probes run in a fixed order on the forwarded port: TLS, then
/// WebSocket, then HTTP. A probe that hits sets the protocol it probes for and
/// ends enabling; a probe that misses hands over to the next one, and after
/// the HTTP probe misses the tunnel is plain TCP and enabling is over.
pub proof fn probes_run_tls_then_websocket_then_http(t: TunnelView, port: u16, r: ReplyView)
    ensures
        (!probe_hit(Probe::Tls, received(r)) ==> enable_next(
            t,
            EnableJob::LocalProbe { port, probe: Probe::Tls },
            r,
        ) == (t, Some(EnableJob::LocalProbe { port, probe: Probe::WebSocket }))),
        (!probe_hit(Probe::WebSocket, received(r)) ==> enable_next(
            t,
            EnableJob::LocalProbe { port, probe: Probe::WebSocket },
            r,
        ) == (t, Some(EnableJob::LocalProbe { port, probe: Probe::Http }))),
        (!probe_hit(Probe::Http, received(r)) ==> enable_next(
            t,
            EnableJob::LocalProbe { port, probe: Probe::Http },
            r,
        ) == (TunnelView { protocol: Protocol::Tcp, ..t }, None::<EnableJob>)),
        (probe_hit(Probe::Tls, received(r)) ==> enable_next(
            t,
            EnableJob::LocalProbe { port, probe: Probe::Tls },
            r,
        ) == (TunnelView { protocol: Protocol::Https, ..t }, None::<EnableJob>)),
        (probe_hit(Probe::WebSocket, received(r)) ==> enable_next(
            t,
            EnableJob::LocalProbe { port, probe: Probe::WebSocket },
            r,
        ) == (TunnelView { protocol: Protocol::Ws, ..t }, None::<EnableJob>)),
        (probe_hit(Probe::Http, received(r)) ==> enable_next(
            t,
            EnableJob::LocalProbe { port, probe: Probe::Http },
            r,
        ) == (TunnelView { protocol: Protocol::Http, ..t }, None::<EnableJob>)),
{
}

/// A service that answers the WebSocket upgrade with `HTTP/1.1 101` is shown
/// as WebSocket, whatever it would answer to a plain HTTP request: once the
/// TLS probe has missed, the upgrade reply alone ends enabling with the
/// protocol `Ws`.
pub proof fn websocket_upgrade_is_detected_before_http(
    t: TunnelView,
    port: u16,
    tls_reply: ReplyView,
    upgrade: Seq<u8>,
)
    requires
        !probe_hit(Probe::Tls, received(tls_reply)),
        upgrade.len() >= 12,
        upgrade.take(12) == seq![72u8, 84, 84, 80, 47, 49, 46, 49, 32, 49, 48, 49] || upgrade.take(12)
            == seq![72u8, 84, 84, 80, 47, 49, 46, 48, 32, 49, 48, 49],
    ensures
        run_enable(
            t,
            Some(EnableJob::LocalProbe { port, probe: Probe::Tls }),
            seq![tls_reply, ReplyView::Received(Some(upgrade))],
        ) == (TunnelView { protocol: Protocol::Ws, ..t }, None::<EnableJob>),
{
    reveal_with_fuel(run_enable, 3);
    let replies = seq![tls_reply, ReplyView::Received(Some(upgrade))];
    assert(replies.drop_last() =~= seq![tls_reply]);
    assert(seq![tls_reply].drop_last() =~= Seq::<ReplyView>::empty());
    assert(upgrade.take(12) == upgrade_reply_11() || upgrade.take(12) == upgrade_reply_10());
    assert(probe_hit(Probe::WebSocket, Some(upgrade)));
}

/// A TLS record header in reply to the ClientHello (a handshake or an alert
/// record, version 3.x) shows HTTPS at once.
pub proof fn tls_record_header_shows_https(t: TunnelView, port: u16, header: Seq<u8>)
    requires
        header.len() == 5,
        header[0] == 0x16u8 || header[0] == 0x15u8,
        header[1] == 0x03u8,
    ensures
        enable_next(
            t,
            EnableJob::LocalProbe { port, probe: Probe::Tls },
            ReplyView::Received(Some(header)),
        ) == (TunnelView { protocol: Protocol::Https, ..t }, None::<EnableJob>),
{
}

/// When neither the TLS nor the WebSocket probe hits, the plain HTTP probe
/// decides: an `HTTP/` status line shows HTTP, and no answer leaves the tunnel
/// plain TCP; either way enabling is over after three probes.
pub proof fn http_is_probed_last(t: TunnelView, port: u16, tls_reply: ReplyView, upgrade_reply: ReplyView)
    requires
        !probe_hit(Probe::Tls, received(tls_reply)),
        !probe_hit(Probe::WebSocket, received(upgrade_reply)),
    ensures
        run_enable(
            t,
            Some(EnableJob::LocalProbe { port, probe: Probe::Tls }),
            seq![tls_reply, upgrade_reply, ReplyView::Received(Some(seq![72u8, 84, 84, 80, 47]))],
        ) == (TunnelView { protocol: Protocol::Http, ..t }, None::<EnableJob>),
        run_enable(
            t,
            Some(EnableJob::LocalProbe { port, probe: Probe::Tls }),
            seq![tls_reply, upgrade_reply, ReplyView::Received(None)],
        ) == (TunnelView { protocol: Protocol::Tcp, ..t }, None::<EnableJob>),
{
    reveal_with_fuel(run_enable, 4);
    let status = ReplyView::Received(Some(seq![72u8, 84, 84, 80, 47]));
    let silent = ReplyView::Received(None);
    let a = seq![tls_reply, upgrade_reply, status];
    let b = seq![tls_reply, upgrade_reply, silent];
    assert(a.drop_last() =~= seq![tls_reply, upgrade_reply]);
    assert(b.drop_last() =~= seq![tls_reply, upgrade_reply]);
    assert(seq![tls_reply, upgrade_reply].drop_last() =~= seq![tls_reply]);
    assert(seq![tls_reply].drop_last() =~= Seq::<ReplyView>::empty());
    assert(probe_hit(Probe::Http, received(status)));
    assert(!probe_hit(Probe::Http, received(silent)));
}

/// After a reconnect a tunnel is enabled again only if it was on before the
/// connection was lost and is still off: a tunnel that the reconnect scan has
/// already switched on is never enabled a second time. Every reverse tunnel
/// that was on, and every tunnel whose service is still listed, is wanted once
/// all tunnels were reset.
pub proof fn restore_only_enables_tunnels_still_off(ts: Seq<TunnelView>, index: int, was_enabled: bool)
    ensures
        wants_restore(ts, index, was_enabled) ==> was_enabled && 0 <= index < ts.len()
            && !ts[index].enabled,
        0 <= index < ts.len() && ts[index].enabled ==> !wants_restore(ts, index, was_enabled),
        !was_enabled ==> !wants_restore(ts, index, was_enabled),
        0 <= index < ts.len() && ts[index].enabled && (ts[index].direction == Direction::Reverse
            || ts[index].present) ==> wants_restore(reset_all(ts), index, ts[index].enabled),
{
    if 0 <= index < ts.len() {
        assert(reset_all(ts)[index] == reset_view(ts[index]));
    }
}

/// An empty listening-port field stands for the service port, for a local
/// tunnel and for a reverse one alike: with a valid service port `p` the form
/// gives an off tunnel of that direction from `p` to `p`, with the trimmed
/// label, the same tunnel as when `p` is typed in both fields.
pub proof fn empty_listening_port_means_the_service_port(
    direction: Direction,
    source: Seq<char>,
    label: Seq<char>,
)
    requires
        form_port(source) is Some,
    ensures
        form_tunnel(direction, source, seq![], label) matches Ok(t) && t.direction == direction
            && t.source_port == form_port(source)->0 && t.requested_port == form_port(source)->0
            && !t.enabled && t.label == trim(label),
        form_tunnel(direction, source, seq![], label) == form_tunnel(direction, source, source, label),
{
}

} // verus!
