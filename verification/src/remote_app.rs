//! Remote Wayland applications run through `waypipe`: their status, the
//! command line that starts them, and the diagnostics kept when they end.

use vstd::prelude::*;

use crate::shell::{quote, shell_quoted, shell_words_split, split, string_views};
use crate::ssh::SshControl;
use crate::text::{
    chars_of, contains_text, has_substring, lossy_text, push_signed_decimal, push_str,
    signed_decimal, string_of, trim, trim_chars, utf8_lossy,
};

verus! {

broadcast use vstd::string::group_string_axioms;

/// How many bytes of a program's error output are kept.
pub const TAIL_LIMIT: usize = 4096;

/// Where a remote application stands.
#[derive(Clone, Debug, PartialEq, Eq)]
pub enum RemoteAppStatus {
    Starting,
    Running,
    /// Ended on its own or was stopped; the text says how.
    Exited(String),
    /// Could not start, or ended with an error; the text says why.
    Failed(String),
}

impl RemoteAppStatus {
    /// The word shown for this status.
    pub fn label(&self) -> (l: &str)
        ensures
            l@ == match self {
                RemoteAppStatus::Starting => "starting"@,
                RemoteAppStatus::Running => "running"@,
                RemoteAppStatus::Exited(_) => "exited"@,
                RemoteAppStatus::Failed(_) => "failed"@,
            },
    {
        match self {
            RemoteAppStatus::Starting => "starting",
            RemoteAppStatus::Running => "running",
            RemoteAppStatus::Exited(_) => "exited",
            RemoteAppStatus::Failed(_) => "failed",
        }
    }

    /// The explanation of an ended application, when there is one.
    pub fn details(&self) -> (d: Option<&str>)
        ensures
            match self {
                RemoteAppStatus::Exited(t) | RemoteAppStatus::Failed(t) => if t@.len() > 0 {
                    d matches Some(s) && s@ == t@
                } else {
                    d is None
                },
                _ => d is None,
            },
    {
        match self {
            RemoteAppStatus::Exited(details) | RemoteAppStatus::Failed(details) => {
                if details.as_str().is_empty() {
                    None
                } else {
                    Some(details.as_str())
                }
            },
            _ => None,
        }
    }

    /// Whether the application can still be stopped.
    pub fn can_stop(&self) -> (b: bool)
        ensures
            b == (self is Starting || self is Running),
    {
        match self {
            RemoteAppStatus::Starting | RemoteAppStatus::Running => true,
            _ => false,
        }
    }

    /// Whether the application has ended.
    pub fn is_finished(&self) -> (b: bool)
        ensures
            b == (self is Exited || self is Failed),
    {
        match self {
            RemoteAppStatus::Exited(_) | RemoteAppStatus::Failed(_) => true,
            _ => false,
        }
    }
}

/// A remote application as the interface lists it.
#[derive(Clone, Debug, PartialEq, Eq)]
pub struct RemoteAppInfo {
    pub id: u64,
    pub command: String,
    pub status: RemoteAppStatus,
}

// ---------------------------------------------------------------------------
// The command line
// ---------------------------------------------------------------------------

/// Why a remote command cannot be run.
pub open spec fn command_error(command: Seq<char>) -> Option<Seq<char>> {
    match shell_words_split(command) {
        None => Some("invalid remote command quoting: missing closing quote"@),
        Some(words) => if words.len() == 0 {
            Some("enter a remote command, for example: firefox --new-instance"@)
        } else if words[0].len() > 0 && words[0][0] == '-' {
            Some("the remote command must start with a program name, not an option"@)
        } else {
            None
        },
    }
}

/// Split a user-supplied command into an argv without ever invoking a shell.
/// The first word must be a program, not an option.
pub fn parse_remote_command(command: &str) -> (r: Result<Vec<String>, String>)
    ensures
        match r {
            Ok(argv) => command_error(command@) is None && shell_words_split(command@) == Some(string_views(argv@)),
            Err(m) => command_error(command@) == Some(m@),
        },
{
    let argv = match split(command) {
        Ok(words) => words,
        Err(_) => return Err("invalid remote command quoting: missing closing quote".to_owned()),
    };
    if argv.len() == 0 {
        return Err("enter a remote command, for example: firefox --new-instance".to_owned());
    }
    let first = chars_of(argv[0].as_str());
    assert(first@ == string_views(argv@)[0]);
    if first.len() > 0 && first[0] == '-' {
        return Err("the remote command must start with a program name, not an option".to_owned());
    }
    Ok(argv)
}

/// Words joined by single spaces.
pub open spec fn joined(words: Seq<Seq<char>>) -> Seq<char>
    decreases words.len(),
{
    if words.len() == 0 {
        seq![]
    } else if words.len() == 1 {
        words[0]
    } else {
        joined(words.drop_last()) + seq![' '] + words.last()
    }
}

/// Each word quoted for the shell.
pub open spec fn quoted_words(words: Seq<Seq<char>>) -> Seq<Seq<char>> {
    words.map_values(|w: Seq<char>| shell_quoted(w))
}

/// A program with its arguments.
#[derive(Clone, Debug, PartialEq, Eq)]
pub struct WaypipeCommand {
    pub program: String,
    pub args: Vec<String>,
}

/// The local `waypipe` command that runs `argv` on the remote host through
/// the session's ControlMaster. The remote command is one string of quoted
/// words, so that spaces and shell characters stay literal. GPU buffers are
/// not used, since remote machines often have no render node.
pub fn waypipe_command(waypipe: &str, control: &SshControl, argv: &[String]) -> (command: WaypipeCommand)
    ensures
        command.program@ == waypipe@,
        string_views(command.args@) == seq![
            "--no-gpu"@,
            "ssh"@,
            "-S"@,
            control.socket_text(),
            control.destination_text(),
            joined(quoted_words(string_views(argv@))),
        ],
{
    let ghost words = string_views(argv@);
    let mut remote: String = String::new();
    let mut i: usize = 0;
    while i < argv.len()
        invariant
            i <= argv@.len(),
            words == string_views(argv@),
            remote@ == joined(quoted_words(words.take(i as int))),
        decreases argv@.len() - i,
    {
        let q = quote(argv[i].as_str());
        let ghost before = remote@;
        assert(words.take(i + 1).drop_last() == words.take(i as int));
        assert(quoted_words(words.take(i + 1)).drop_last() =~= quoted_words(words.take(i as int)));
        assert(quoted_words(words.take(i + 1)).last() == shell_quoted(words[i as int]));
        if i > 0 {
            remote.append(" ");
        }
        remote.append(q.as_str());
        proof {
            reveal_strlit(" ");
            if i == 0 {
                assert(quoted_words(words.take(1)) =~= seq![shell_quoted(words[0])]);
                assert(remote@ =~= joined(quoted_words(words.take(1))));
            } else {
                assert(remote@ =~= joined(quoted_words(words.take(i + 1))));
            }
        }
        i = i + 1;
    }
    assert(words.take(argv@.len() as int) == words);
    let mut args: Vec<String> = Vec::new();
    args.push("--no-gpu".to_owned());
    args.push("ssh".to_owned());
    args.push("-S".to_owned());
    args.push(control.socket().to_owned());
    args.push(control.destination().to_owned());
    args.push(remote);
    let command = WaypipeCommand { program: waypipe.to_owned(), args };
    assert(string_views(command.args@) =~= seq![
        "--no-gpu"@,
        "ssh"@,
        "-S"@,
        control.socket_text(),
        control.destination_text(),
        joined(quoted_words(string_views(argv@))),
    ]);
    command
}

// ---------------------------------------------------------------------------
// Diagnostics
// ---------------------------------------------------------------------------

/// The last `limit` items of `s`.
pub open spec fn tail_of(s: Seq<u8>, limit: nat) -> Seq<u8> {
    if s.len() <= limit {
        s
    } else {
        s.skip(s.len() - limit)
    }
}

/// Append `bytes` to the kept error output, keeping only its last
/// `TAIL_LIMIT` bytes.
pub fn append_tail(tail: &mut Vec<u8>, bytes: &[u8])
    ensures
        final(tail)@ == tail_of(old(tail)@ + bytes@, TAIL_LIMIT as nat),
{
    let ghost joined_bytes = tail@ + bytes@;
    let mut out: Vec<u8> = Vec::new();
    if bytes.len() >= TAIL_LIMIT {
        let start = bytes.len() - TAIL_LIMIT;
        let mut i: usize = start;
        while i < bytes.len()
            invariant
                start <= i <= bytes@.len(),
                out@ == bytes@.subrange(start as int, i as int),
            decreases bytes@.len() - i,
        {
            out.push(bytes[i]);
            i = i + 1;
        }
        assert(out@ =~= tail_of(joined_bytes, TAIL_LIMIT as nat));
    } else {
        let room = TAIL_LIMIT - bytes.len();
        let overflow: usize = if tail.len() > room {
            tail.len() - room
        } else {
            0
        };
        let mut i: usize = overflow;
        while i < tail.len()
            invariant
                overflow <= i <= tail@.len(),
                overflow <= tail@.len(),
                out@ == tail@.subrange(overflow as int, i as int),
            decreases tail@.len() - i,
        {
            out.push(tail[i]);
            i = i + 1;
        }
        let mut k: usize = 0;
        while k < bytes.len()
            invariant
                k <= bytes@.len(),
                overflow <= tail@.len(),
                out@ == tail@.skip(overflow as int) + bytes@.take(k as int),
            decreases bytes@.len() - k,
        {
            out.push(bytes[k]);
            assert(bytes@.take(k + 1) == bytes@.take(k as int).push(bytes@[k as int]));
            k = k + 1;
        }
        assert(bytes@.take(bytes@.len() as int) == bytes@);
        assert(out@ =~= tail_of(joined_bytes, TAIL_LIMIT as nat));
    }
    *tail = out;
}

/// The kept error output never grows past `TAIL_LIMIT` bytes, and it is
/// always the latest part of everything written: appending keeps the last
/// bytes of the old tail followed by the new bytes.
pub proof fn stderr_tail_is_bounded(tail: Seq<u8>, bytes: Seq<u8>)
    ensures
        tail_of(tail + bytes, TAIL_LIMIT as nat).len() <= TAIL_LIMIT,
        (tail + bytes).len() >= tail_of(tail + bytes, TAIL_LIMIT as nat).len(),
        tail_of(tail + bytes, TAIL_LIMIT as nat) == (tail + bytes).skip(
            (tail + bytes).len() - tail_of(tail + bytes, TAIL_LIMIT as nat).len(),
        ),
{
    let joined = tail + bytes;
    if joined.len() > TAIL_LIMIT {
        assert(joined.skip(joined.len() - TAIL_LIMIT as int).len() == TAIL_LIMIT);
    } else {
        assert(joined.skip(0) =~= joined);
    }
}

/// The kept error output as text: trimmed, and when longer than
/// `TAIL_LIMIT` bytes, only its last `TAIL_LIMIT` bytes after `…`.
pub open spec fn stderr_summary(bytes: Seq<u8>) -> Seq<char> {
    let t = trim(utf8_lossy(bytes));
    let encoded = vstd::utf8::encode_utf8(t);
    if encoded.len() <= TAIL_LIMIT {
        t
    } else {
        "…"@ + utf8_lossy(encoded.skip(encoded.len() - TAIL_LIMIT))
    }
}

/// The kept error output as text.
pub fn stderr_text(bytes: &[u8]) -> (text: String)
    ensures
        text@ == stderr_summary(bytes@),
{
    let decoded = lossy_text(bytes);
    let trimmed = string_of(&trim_chars(&chars_of(decoded.as_str())));
    let raw = trimmed.as_str().as_bytes();
    let n = raw.len();
    if n <= TAIL_LIMIT {
        return trimmed;
    }
    let last = vstd::slice::slice_subrange(raw, n - TAIL_LIMIT, n);
    assert(last@ =~= raw@.skip(n - TAIL_LIMIT));
    let rest = lossy_text(last);
    let mut out = "…".to_owned();
    out.append(rest.as_str());
    out
}

/// How a program ended, with its error output when there is any.
pub open spec fn exit_text(code: Option<i32>, stderr: Seq<char>) -> Seq<char> {
    let status = match code {
        Some(c) => "exit code "@ + signed_decimal(c as int),
        None => "terminated by signal"@,
    };
    if stderr.len() == 0 {
        status
    } else {
        status + ": "@ + stderr
    }
}

/// How a program ended (`exit code 23: boom`).
pub fn exit_details(code: Option<i32>, stderr: &str) -> (details: String)
    ensures
        details@ == exit_text(code, stderr@),
{
    let mut out: Vec<char> = Vec::new();
    match code {
        Some(c) => {
            push_str(&mut out, "exit code ");
            push_signed_decimal(&mut out, c as i64);
        },
        None => push_str(&mut out, "terminated by signal"),
    }
    if !stderr.is_empty() {
        push_str(&mut out, ": ");
        push_str(&mut out, stderr);
    }
    string_of(&out)
}

/// Whether error output shows that the program under `waypipe` failed even
/// though `waypipe` itself succeeded.
pub open spec fn child_failed(stderr: Seq<char>) -> bool {
    has_substring(stderr, "Failed to execvp"@) || has_substring(stderr, "panicked at"@)
}

/// The final status of an application whose `waypipe` exited: `Exited` after
/// success, `Failed` after an error or when the output shows that the program
/// itself failed.
pub fn completed_status(success: bool, code: Option<i32>, stderr: &str) -> (status: RemoteAppStatus)
    ensures
        match status {
            RemoteAppStatus::Exited(d) => success && !child_failed(stderr@) && d@ == exit_text(code, stderr@),
            RemoteAppStatus::Failed(d) => !(success && !child_failed(stderr@)) && d@ == exit_text(code, stderr@),
            _ => false,
        },
        status@ == final_status(success, code, stderr@),
        has_substring(stderr@, "panicked at"@) ==> status is Failed,
        has_substring(stderr@, "Failed to execvp"@) ==> status is Failed,
{
    let details = exit_details(code, stderr);
    let text = chars_of(stderr);
    let execvp = chars_of("Failed to execvp");
    let panicked = chars_of("panicked at");
    let failed = contains_text(&text, &execvp) || contains_text(&text, &panicked);
    if success && !failed {
        RemoteAppStatus::Exited(details)
    } else {
        RemoteAppStatus::Failed(details)
    }
}

// ---------------------------------------------------------------------------
// The applications of a session
// ---------------------------------------------------------------------------

/// A status as plain values.
pub enum StatusView {
    Starting,
    Running,
    Exited(Seq<char>),
    Failed(Seq<char>),
}

impl View for RemoteAppStatus {
    type V = StatusView;

    open spec fn view(&self) -> StatusView {
        match self {
            RemoteAppStatus::Starting => StatusView::Starting,
            RemoteAppStatus::Running => StatusView::Running,
            RemoteAppStatus::Exited(t) => StatusView::Exited(t@),
            RemoteAppStatus::Failed(t) => StatusView::Failed(t@),
        }
    }
}

/// Whether a status is final.
pub open spec fn finished(s: StatusView) -> bool {
    s is Exited || s is Failed
}

/// A listed application as plain values.
pub struct InfoView {
    pub id: u64,
    pub command: Seq<char>,
    pub status: StatusView,
}

impl View for RemoteAppInfo {
    type V = InfoView;

    open spec fn view(&self) -> InfoView {
        InfoView { id: self.id, command: self.command@, status: self.status@ }
    }
}

/// An application the manager follows: what is listed, whether its `waypipe`
/// process is alive, and how that process ended while its error output is
/// still being collected.
pub struct TrackedApp {
    pub info: RemoteAppInfo,
    pub has_child: bool,
    pub pending_exit: Option<(bool, Option<i32>)>,
}

/// A followed application as plain values.
pub struct TrackedView {
    pub info: InfoView,
    pub has_child: bool,
    pub pending_exit: Option<(bool, Option<i32>)>,
}

impl View for TrackedApp {
    type V = TrackedView;

    open spec fn view(&self) -> TrackedView {
        TrackedView { info: self.info@, has_child: self.has_child, pending_exit: self.pending_exit }
    }
}

/// The applications of one session. The manager decides; the caller owns the
/// `waypipe` processes, keyed by id, and reports what happens to them.
pub struct RemoteAppManager {
    apps: Vec<TrackedApp>,
    cancelled: Vec<u64>,
    next_id: u64,
}

/// The manager as plain values: the applications in launch order, the ids of
/// launches stopped before they were ready, and the next id.
pub struct ManagerView {
    pub apps: Seq<TrackedView>,
    pub cancelled: Seq<u64>,
    pub next_id: u64,
}

impl View for RemoteAppManager {
    type V = ManagerView;

    open spec fn view(&self) -> ManagerView {
        self.state()
    }
}

impl RemoteAppManager {
    /// The manager as plain values.
    pub closed spec fn state(&self) -> ManagerView {
        ManagerView {
            apps: self.apps@.map_values(|a: TrackedApp| a@),
            cancelled: self.cancelled@,
            next_id: self.next_id,
        }
    }
}

/// The views of a list of applications.
pub open spec fn info_views(v: Seq<RemoteAppInfo>) -> Seq<InfoView> {
    v.map_values(|i: RemoteAppInfo| i@)
}

/// The position of the first application with `id`.
pub open spec fn find_app(apps: Seq<TrackedView>, id: u64) -> Option<int>
    decreases apps.len(),
{
    if apps.len() == 0 {
        None
    } else {
        match find_app(apps.drop_last(), id) {
            Some(i) => Some(i),
            None => if apps.last().info.id == id {
                Some(apps.len() - 1)
            } else {
                None
            },
        }
    }
}

/// `find_app` gives the first position holding `id`, if any.
proof fn lemma_find_app(apps: Seq<TrackedView>, id: u64)
    ensures
        match find_app(apps, id) {
            Some(i) => 0 <= i < apps.len() && apps[i].info.id == id && forall|j: int|
                0 <= j < i ==> apps[j].info.id != id,
            None => forall|j: int| 0 <= j < apps.len() ==> apps[j].info.id != id,
        },
    decreases apps.len(),
{
    if apps.len() > 0 {
        let front = apps.drop_last();
        lemma_find_app(front, id);
        assert(forall|j: int| 0 <= j < front.len() ==> front[j] == apps[j]);
        match find_app(front, id) {
            Some(i) => {},
            None => {
                assert(forall|j: int| 0 <= j < apps.len() - 1 ==> apps[j].info.id != id);
            },
        }
    }
}

/// The applications that have not finished, in order.
pub open spec fn unfinished(apps: Seq<TrackedView>) -> Seq<TrackedView>
    decreases apps.len(),
{
    if apps.len() == 0 {
        apps
    } else if finished(apps.last().info.status) {
        unfinished(apps.drop_last())
    } else {
        unfinished(apps.drop_last()).push(apps.last())
    }
}

/// `ids` without `id`.
pub open spec fn without(ids: Seq<u64>, id: u64) -> Seq<u64>
    decreases ids.len(),
{
    if ids.len() == 0 {
        ids
    } else if ids.last() == id {
        without(ids.drop_last(), id)
    } else {
        without(ids.drop_last(), id).push(ids.last())
    }
}

/// The text of a stopped application.
pub open spec fn stopped_text() -> Seq<char> {
    "stopped"@
}

/// The text of an application whose error output is still being read.
pub open spec fn collecting_text() -> Seq<char> {
    "collecting diagnostics…"@
}

/// An application with another status.
pub open spec fn with_status(e: TrackedView, s: StatusView) -> TrackedView {
    TrackedView { info: InfoView { status: s, ..e.info }, ..e }
}

/// The status of an application whose `waypipe` ended, once its error output
/// is known.
pub open spec fn final_status(success: bool, code: Option<i32>, stderr: Seq<char>) -> StatusView {
    if success && !child_failed(stderr) {
        StatusView::Exited(exit_text(code, stderr))
    } else {
        StatusView::Failed(exit_text(code, stderr))
    }
}

/// An application whose error output shows a panic, or shows that `waypipe`
/// could not start the program, has failed whatever `waypipe`'s own exit
/// status; so has one whose `waypipe` failed. Otherwise it exited. Either way
/// the text says how it ended, with the error output.
pub proof fn panics_and_exec_failures_count_as_failures(success: bool, code: Option<i32>, stderr: Seq<char>)
    ensures
        has_substring(stderr, "panicked at"@) ==> final_status(success, code, stderr) is Failed,
        has_substring(stderr, "Failed to execvp"@) ==> final_status(success, code, stderr) is Failed,
        !success ==> final_status(success, code, stderr) is Failed,
        success && !has_substring(stderr, "panicked at"@) && !has_substring(stderr, "Failed to execvp"@)
            ==> final_status(success, code, stderr) is Exited,
        final_status(success, code, stderr) matches StatusView::Exited(d) ==> d == exit_text(code, stderr),
        final_status(success, code, stderr) matches StatusView::Failed(d) ==> d == exit_text(code, stderr),
{
}

/// After a launch: finished applications are cleared and the new one is
/// listed as starting, under the next id, with its trimmed command.
pub open spec fn launched(m: ManagerView, command: Seq<char>) -> ManagerView {
    ManagerView {
        apps: unfinished(m.apps).push(
            TrackedView {
                info: InfoView { id: m.next_id, command: trim(command), status: StatusView::Starting },
                has_child: false,
                pending_exit: None,
            },
        ),
        cancelled: m.cancelled,
        next_id: (m.next_id + 1) as u64,
    }
}

/// When the process of launch `id` is ready: a launch stopped meanwhile is
/// marked stopped (and its process must be stopped: `false`); otherwise the
/// application runs and the caller keeps the process (`true`). An unknown id
/// changes nothing, and its process must be stopped.
pub open spec fn readied(m: ManagerView, id: u64) -> (ManagerView, bool) {
    match find_app(m.apps, id) {
        None => (m, false),
        Some(i) => if m.cancelled.contains(id) {
            (
                ManagerView {
                    apps: m.apps.update(i, with_status(m.apps[i], StatusView::Exited(stopped_text()))),
                    cancelled: without(m.cancelled, id),
                    ..m
                },
                false,
            )
        } else {
            (
                ManagerView {
                    apps: m.apps.update(
                        i,
                        TrackedView {
                            has_child: true,
                            pending_exit: None,
                            ..with_status(m.apps[i], StatusView::Running)
                        },
                    ),
                    ..m
                },
                true,
            )
        },
    }
}

/// When launch `id` failed: the application fails with the error, unless it
/// was stopped meanwhile.
pub open spec fn launch_failure(m: ManagerView, id: u64, error: Seq<char>) -> ManagerView {
    match find_app(m.apps, id) {
        None => m,
        Some(i) => if m.cancelled.contains(id) {
            ManagerView { cancelled: without(m.cancelled, id), ..m }
        } else {
            ManagerView {
                apps: m.apps.update(i, with_status(m.apps[i], StatusView::Failed(error))),
                ..m
            }
        },
    }
}

/// When the process of `id` ended: it is gone, its outcome waits for the
/// error output.
pub open spec fn exited(m: ManagerView, id: u64, success: bool, code: Option<i32>) -> ManagerView {
    match find_app(m.apps, id) {
        None => m,
        Some(i) => ManagerView {
            apps: m.apps.update(
                i,
                TrackedView {
                    has_child: false,
                    pending_exit: Some((success, code)),
                    ..with_status(
                        m.apps[i],
                        if success {
                            StatusView::Exited(collecting_text())
                        } else {
                            StatusView::Failed(collecting_text())
                        },
                    )
                },
            ),
            ..m
        },
    }
}

/// The details of a process that could not be observed.
pub open spec fn unobservable_text(error: Seq<char>, stderr: Seq<char>) -> Seq<char> {
    exit_text(None, "could not observe waypipe process: "@ + error + "; "@ + stderr)
}

/// When the process of `id` could not be observed: it was stopped, and the
/// application fails.
pub open spec fn unobservable(m: ManagerView, id: u64, error: Seq<char>, stderr: Seq<char>) -> ManagerView {
    match find_app(m.apps, id) {
        None => m,
        Some(i) => ManagerView {
            apps: m.apps.update(
                i,
                TrackedView {
                    has_child: false,
                    ..with_status(m.apps[i], StatusView::Failed(unobservable_text(error, stderr)))
                },
            ),
            ..m
        },
    }
}

/// When the error output of an ended process of `id` is known: the
/// application gets its final status.
pub open spec fn diagnosed(m: ManagerView, id: u64, stderr: Seq<char>) -> ManagerView {
    match find_app(m.apps, id) {
        None => m,
        Some(i) => match m.apps[i].pending_exit {
            None => m,
            Some((success, code)) => ManagerView {
                apps: m.apps.update(
                    i,
                    TrackedView {
                        pending_exit: None,
                        ..with_status(m.apps[i], final_status(success, code, stderr))
                    },
                ),
                ..m
            },
        },
    }
}

/// Stopping `id`: a live process must be stopped (`true`) and the
/// application is stopped; a launch still starting is remembered as
/// cancelled and stopped; anything else is left alone.
pub open spec fn stopped(m: ManagerView, id: u64) -> (ManagerView, bool) {
    match find_app(m.apps, id) {
        None => (m, false),
        Some(i) => if m.apps[i].has_child {
            (
                ManagerView {
                    apps: m.apps.update(
                        i,
                        TrackedView {
                            has_child: false,
                            pending_exit: None,
                            ..with_status(m.apps[i], StatusView::Exited(stopped_text()))
                        },
                    ),
                    ..m
                },
                true,
            )
        } else if m.apps[i].info.status is Starting {
            (
                ManagerView {
                    apps: m.apps.update(i, with_status(m.apps[i], StatusView::Exited(stopped_text()))),
                    cancelled: if m.cancelled.contains(id) {
                        m.cancelled
                    } else {
                        m.cancelled.push(id)
                    },
                    ..m
                },
                false,
            )
        } else {
            (m, false)
        },
    }
}

/// Stopping each of `ids` in turn: the final state and the ids whose
/// process must be stopped.
pub open spec fn stopped_all(m: ManagerView, ids: Seq<u64>) -> (ManagerView, Seq<u64>)
    decreases ids.len(),
{
    if ids.len() == 0 {
        (m, seq![])
    } else {
        let (before, kill) = stopped_all(m, ids.drop_last());
        let (after, k) = stopped(before, ids.last());
        (after, if k {
            kill.push(ids.last())
        } else {
            kill
        })
    }
}

/// The ids of the applications, in order.
pub open spec fn app_ids(apps: Seq<TrackedView>) -> Seq<u64> {
    apps.map_values(|e: TrackedView| e.info.id)
}

/// The ids of the applications whose process is alive.
pub open spec fn live_ids(apps: Seq<TrackedView>) -> Seq<u64>
    decreases apps.len(),
{
    if apps.len() == 0 {
        seq![]
    } else if apps.last().has_child {
        live_ids(apps.drop_last()).push(apps.last().info.id)
    } else {
        live_ids(apps.drop_last())
    }
}

/// The ids of the applications whose error output is awaited.
pub open spec fn pending_ids(apps: Seq<TrackedView>) -> Seq<u64>
    decreases apps.len(),
{
    if apps.len() == 0 {
        seq![]
    } else if apps.last().pending_exit is Some {
        pending_ids(apps.drop_last()).push(apps.last().info.id)
    } else {
        pending_ids(apps.drop_last())
    }
}

/// Whether the applications have distinct ids, all below the next id.
pub open spec fn ids_unique(m: ManagerView) -> bool {
    &&& forall|i: int, j: int|
        0 <= i < j < m.apps.len() ==> #[trigger] m.apps[i].info.id != #[trigger] m.apps[j].info.id
    &&& forall|i: int| 0 <= i < m.apps.len() ==> #[trigger] m.apps[i].info.id < m.next_id
}

/// Every application kept by `unfinished` comes from the list, in order.
proof fn lemma_unfinished_from(apps: Seq<TrackedView>)
    ensures
        unfinished(apps).len() <= apps.len(),
        forall|i: int|
            0 <= i < unfinished(apps).len() ==> exists|j: int|
                0 <= j < apps.len() && #[trigger] unfinished(apps)[i] == apps[j],
        forall|i: int, k: int|
            0 <= i < k < unfinished(apps).len() ==> exists|a: int, b: int|
                0 <= a < b < apps.len() && #[trigger] unfinished(apps)[i] == apps[a]
                    && #[trigger] unfinished(apps)[k] == apps[b],
    decreases apps.len(),
{
    if apps.len() > 0 {
        let front = apps.drop_last();
        lemma_unfinished_from(front);
        let u = unfinished(front);
        assert(forall|j: int| 0 <= j < front.len() ==> front[j] == apps[j]);
        if !finished(apps.last().info.status) {
            let v = u.push(apps.last());
            assert forall|i: int, k: int| 0 <= i < k < v.len() implies exists|a: int, b: int|
                0 <= a < b < apps.len() && #[trigger] v[i] == apps[a] && #[trigger] v[k] == apps[b] by {
                if k == v.len() - 1 {
                    let a = choose|a: int| 0 <= a < front.len() && u[i] == front[a];
                    assert(v[i] == apps[a] && v[k] == apps[apps.len() - 1]);
                } else {
                    let (a, b) = choose|a: int, b: int|
                        0 <= a < b < front.len() && u[i] == front[a] && u[k] == front[b];
                    assert(v[i] == apps[a] && v[k] == apps[b]);
                }
            }
            assert forall|i: int| 0 <= i < v.len() implies exists|j: int|
                0 <= j < apps.len() && #[trigger] v[i] == apps[j] by {
                if i == v.len() - 1 {
                    assert(v[i] == apps[apps.len() - 1]);
                } else {
                    let a = choose|a: int| 0 <= a < front.len() && u[i] == front[a];
                    assert(v[i] == apps[a]);
                }
            }
        } else {
            assert forall|i: int, k: int| 0 <= i < k < u.len() implies exists|a: int, b: int|
                0 <= a < b < apps.len() && #[trigger] u[i] == apps[a] && #[trigger] u[k] == apps[b] by {
                let (a, b) = choose|a: int, b: int|
                    0 <= a < b < front.len() && u[i] == front[a] && u[k] == front[b];
                assert(u[i] == apps[a] && u[k] == apps[b]);
            }
            assert forall|i: int| 0 <= i < u.len() implies exists|j: int|
                0 <= j < apps.len() && #[trigger] u[i] == apps[j] by {
                let a = choose|a: int| 0 <= a < front.len() && u[i] == front[a];
                assert(u[i] == apps[a]);
            }
        }
    }
}

/// Replacing an application by one with the same id keeps the ids unique,
/// whatever the cancelled launches.
proof fn lemma_update_keeps_ids(m: ManagerView, i: int, e: TrackedView, cancelled: Seq<u64>)
    requires
        ids_unique(m),
        0 <= i < m.apps.len(),
        e.info.id == m.apps[i].info.id,
    ensures
        ids_unique(ManagerView { apps: m.apps.update(i, e), cancelled, next_id: m.next_id }),
{
    let a = m.apps.update(i, e);
    assert forall|x: int| 0 <= x < a.len() implies #[trigger] a[x].info.id == m.apps[x].info.id by {}
}

/// Every application keeps an id of its own: each step of the manager keeps
/// the ids distinct and below the next id, and a launch takes the next id.
pub proof fn app_ids_stay_unique(
    m: ManagerView,
    id: u64,
    command: Seq<char>,
    error: Seq<char>,
    stderr: Seq<char>,
    success: bool,
    code: Option<i32>,
)
    requires
        ids_unique(m),
    ensures
        m.next_id < u64::MAX ==> ids_unique(launched(m, command)),
        ids_unique(readied(m, id).0),
        ids_unique(launch_failure(m, id, error)),
        ids_unique(exited(m, id, success, code)),
        ids_unique(unobservable(m, id, error, stderr)),
        ids_unique(diagnosed(m, id, stderr)),
        ids_unique(stopped(m, id).0),
{
    if m.next_id < u64::MAX {
        let l = launched(m, command);
        let u = unfinished(m.apps);
        lemma_unfinished_from(m.apps);
        assert forall|i: int, j: int| 0 <= i < j < l.apps.len() implies #[trigger] l.apps[i].info.id
            != #[trigger] l.apps[j].info.id by {
            if j == l.apps.len() - 1 {
                let a = choose|a: int| 0 <= a < m.apps.len() && u[i] == m.apps[a];
                assert(l.apps[i] == m.apps[a]);
            } else {
                let (a, b) = choose|a: int, b: int|
                    0 <= a < b < m.apps.len() && u[i] == m.apps[a] && u[j] == m.apps[b];
                assert(l.apps[i] == m.apps[a] && l.apps[j] == m.apps[b]);
            }
        }
        assert forall|i: int| 0 <= i < l.apps.len() implies #[trigger] l.apps[i].info.id < l.next_id by {
            if i < l.apps.len() - 1 {
                let a = choose|a: int| 0 <= a < m.apps.len() && u[i] == m.apps[a];
                assert(l.apps[i] == m.apps[a]);
            }
        }
    }
    lemma_find_app(m.apps, id);
    match find_app(m.apps, id) {
        Some(i) => {
            let e = m.apps[i];
            lemma_update_keeps_ids(m, i, with_status(e, StatusView::Exited(stopped_text())), without(m.cancelled, id));
            lemma_update_keeps_ids(
                m,
                i,
                TrackedView { has_child: true, pending_exit: None, ..with_status(e, StatusView::Running) },
                m.cancelled,
            );
            lemma_update_keeps_ids(m, i, with_status(e, StatusView::Failed(error)), m.cancelled);
            lemma_update_keeps_ids(m, i, e, without(m.cancelled, id));
            lemma_update_keeps_ids(m, i, exited(m, id, success, code).apps[i], m.cancelled);
            lemma_update_keeps_ids(m, i, unobservable(m, id, error, stderr).apps[i], m.cancelled);
            lemma_update_keeps_ids(m, i, diagnosed(m, id, stderr).apps[i], m.cancelled);
            lemma_update_keeps_ids(m, i, stopped(m, id).0.apps[i], m.cancelled);
            lemma_update_keeps_ids(m, i, stopped(m, id).0.apps[i], stopped(m, id).0.cancelled);
            assert(m.apps.update(i, e) == m.apps);
        },
        None => {},
    }
}

/// A finished application stays finished: failing, ending, diagnosing,
/// losing sight of a process and stopping never bring an application that
/// has ended back to starting or running, and neither does a late ready
/// launch whose id was cancelled. (A ready launch whose id was not cancelled
/// does make its application run.)
pub proof fn finished_apps_stay_finished(
    m: ManagerView,
    j: int,
    id: u64,
    error: Seq<char>,
    stderr: Seq<char>,
    success: bool,
    code: Option<i32>,
)
    requires
        0 <= j < m.apps.len(),
        finished(m.apps[j].info.status),
    ensures
        finished(launch_failure(m, id, error).apps[j].info.status),
        finished(exited(m, id, success, code).apps[j].info.status),
        finished(unobservable(m, id, error, stderr).apps[j].info.status),
        finished(diagnosed(m, id, stderr).apps[j].info.status),
        finished(stopped(m, id).0.apps[j].info.status),
        m.cancelled.contains(id) || find_app(m.apps, id) != Some(j) ==> finished(
            readied(m, id).0.apps[j].info.status,
        ),
{
    lemma_find_app(m.apps, id);
    match find_app(m.apps, id) {
        Some(i) => {
            assert(0 <= i < m.apps.len());
        },
        None => {},
    }
}

proof fn lemma_without(ids: Seq<u64>, id: u64)
    ensures
        forall|x: u64| without(ids, id).contains(x) ==> ids.contains(x) && x != id,
        ids.no_duplicates() ==> without(ids, id).no_duplicates(),
    decreases ids.len(),
{
    if ids.len() > 0 {
        let front = ids.drop_last();
        lemma_without(front, id);
        let w = without(front, id);
        let wi = without(ids, id);
        if ids.last() == id {
            assert(wi == w);
        } else {
            assert(wi == w.push(ids.last()));
        }
        assert forall|x: u64| wi.contains(x) implies ids.contains(x) && x != id by {
            if ids.last() != id && x == ids.last() {
                assert(ids[ids.len() - 1] == x);
            } else {
                let k = choose|k: int| 0 <= k < wi.len() && wi[k] == x;
                assert(k < w.len());
                assert(w[k] == x);
                assert(w.contains(x));
                assert(front.contains(x));
                let k2 = choose|k2: int| 0 <= k2 < front.len() && front[k2] == x;
                assert(ids[k2] == x);
            }
        }
        if ids.no_duplicates() {
            assert(front.no_duplicates()) by {
                assert forall|i: int, j: int| 0 <= i < front.len() && 0 <= j < front.len() && i != j
                    implies front[i] != front[j] by {
                    assert(front[i] == ids[i] && front[j] == ids[j]);
                }
            }
            if ids.last() != id {
                assert(!w.contains(ids.last())) by {
                    if w.contains(ids.last()) {
                        assert(front.contains(ids.last()));
                        let k = choose|k: int| 0 <= k < front.len() && front[k] == ids.last();
                        assert(ids[k] == ids[ids.len() - 1]);
                    }
                }
                let v = w.push(ids.last());
                assert forall|i: int, j: int| 0 <= i < v.len() && 0 <= j < v.len() && i != j
                    implies v[i] != v[j] by {
                    if i == v.len() - 1 {
                        assert(w.contains(v[j]) || j == v.len() - 1);
                    } else if j == v.len() - 1 {
                        assert(w.contains(v[i]));
                    }
                }
            }
        }
    }
}

/// No launch is remembered as cancelled twice: every step of the manager
/// keeps the cancelled ids distinct (the manager holds a set of them).
pub proof fn cancelled_ids_stay_distinct(
    m: ManagerView,
    id: u64,
    command: Seq<char>,
    error: Seq<char>,
    stderr: Seq<char>,
    success: bool,
    code: Option<i32>,
)
    requires
        m.cancelled.no_duplicates(),
    ensures
        m.next_id < u64::MAX ==> launched(m, command).cancelled.no_duplicates(),
        readied(m, id).0.cancelled.no_duplicates(),
        launch_failure(m, id, error).cancelled.no_duplicates(),
        exited(m, id, success, code).cancelled.no_duplicates(),
        unobservable(m, id, error, stderr).cancelled.no_duplicates(),
        diagnosed(m, id, stderr).cancelled.no_duplicates(),
        stopped(m, id).0.cancelled.no_duplicates(),
{
    lemma_without(m.cancelled, id);
    if !m.cancelled.contains(id) {
        let v = m.cancelled.push(id);
        assert forall|i: int, j: int| 0 <= i < v.len() && 0 <= j < v.len() && i != j implies v[i] != v[j] by {
            if i == v.len() - 1 {
                assert(m.cancelled.contains(v[j]) || j == v.len() - 1);
            } else if j == v.len() - 1 {
                assert(m.cancelled.contains(v[i]));
            }
        }
    }
}

/// An application once stopped.
pub open spec fn stop_entry(e: TrackedView) -> TrackedView {
    if e.has_child {
        TrackedView {
            has_child: false,
            pending_exit: None,
            ..with_status(e, StatusView::Exited(stopped_text()))
        }
    } else if e.info.status is Starting {
        with_status(e, StatusView::Exited(stopped_text()))
    } else {
        e
    }
}

/// Stopping the first `k` applications one by one stops exactly those.
proof fn lemma_stopped_all_prefix(m: ManagerView, k: int)
    requires
        ids_unique(m),
        0 <= k <= m.apps.len(),
    ensures
        ({
            let (r, kill) = stopped_all(m, app_ids(m.apps).take(k));
            &&& r.apps.len() == m.apps.len()
            &&& r.next_id == m.next_id
            &&& forall|j: int| 0 <= j < k ==> #[trigger] r.apps[j] == stop_entry(m.apps[j])
            &&& forall|j: int| k <= j < m.apps.len() ==> #[trigger] r.apps[j] == m.apps[j]
            &&& kill == live_ids(m.apps.take(k))
        }),
    decreases k,
{
    let ids = app_ids(m.apps);
    if k == 0 {
        assert(ids.take(0) =~= seq![]);
        assert(m.apps.take(0) =~= seq![]);
    } else {
        lemma_stopped_all_prefix(m, k - 1);
        assert(ids.take(k).drop_last() == ids.take(k - 1));
        let id = ids.take(k).last();
        assert(id == m.apps[k - 1].info.id);
        let (before, kill) = stopped_all(m, ids.take(k - 1));
        lemma_find_app(before.apps, id);
        assert(before.apps[k - 1].info.id == id);
        assert forall|j: int| 0 <= j < k - 1 implies before.apps[j].info.id != id by {
            assert(before.apps[j] == stop_entry(m.apps[j]));
            assert(m.apps[j].info.id != m.apps[k - 1].info.id);
        }
        match find_app(before.apps, id) {
            Some(x) => {
                if x < k - 1 {
                    assert(before.apps[x].info.id != id);
                }
                if x > k - 1 {
                    assert(before.apps[k - 1].info.id != id);
                }
                assert(x == k - 1);
            },
            None => {
                assert(before.apps[k - 1].info.id != id);
            },
        }
        let (after, _) = stopped(before, id);
        assert(after.apps == before.apps.update(k - 1, stop_entry(m.apps[k - 1])));
        assert(m.apps.take(k).drop_last() == m.apps.take(k - 1));
        assert(m.apps.take(k).last() == m.apps[k - 1]);
    }
}

/// Stopping every application asks to stop exactly the live processes, and
/// leaves no process alive and no launch starting.
pub proof fn stop_all_stops_every_process(m: ManagerView)
    requires
        ids_unique(m),
    ensures
        ({
            let (r, kill) = stopped_all(m, app_ids(m.apps));
            &&& kill == live_ids(m.apps)
            &&& r.apps.len() == m.apps.len()
            &&& forall|j: int|
                0 <= j < r.apps.len() ==> !(#[trigger] r.apps[j]).has_child && !(r.apps[j].info.status is Starting)
        }),
{
    lemma_stopped_all_prefix(m, m.apps.len() as int);
    assert(app_ids(m.apps).take(m.apps.len() as int) == app_ids(m.apps));
    assert(m.apps.take(m.apps.len() as int) == m.apps);
    let (r, kill) = stopped_all(m, app_ids(m.apps));
    assert forall|j: int| 0 <= j < r.apps.len() implies !(#[trigger] r.apps[j]).has_child && !(
    r.apps[j].info.status is Starting) by {
        assert(r.apps[j] == stop_entry(m.apps[j]));
    }
}

/// A copy of a status.
fn copy_status(s: &RemoteAppStatus) -> (r: RemoteAppStatus)
    ensures
        r@ == s@,
{
    match s {
        RemoteAppStatus::Starting => RemoteAppStatus::Starting,
        RemoteAppStatus::Running => RemoteAppStatus::Running,
        RemoteAppStatus::Exited(t) => RemoteAppStatus::Exited(t.clone()),
        RemoteAppStatus::Failed(t) => RemoteAppStatus::Failed(t.clone()),
    }
}

/// A copy of a listed application.
fn copy_info(i: &RemoteAppInfo) -> (r: RemoteAppInfo)
    ensures
        r@ == i@,
{
    RemoteAppInfo { id: i.id, command: i.command.clone(), status: copy_status(&i.status) }
}

impl TrackedApp {
    /// A copy of this application.
    fn copy(&self) -> (r: TrackedApp)
        ensures
            r@ == self@,
    {
        TrackedApp { info: copy_info(&self.info), has_child: self.has_child, pending_exit: self.pending_exit }
    }
}

impl Default for RemoteAppManager {
    fn default() -> (m: RemoteAppManager)
        ensures
            m@ == (ManagerView { apps: seq![], cancelled: seq![], next_id: 1 }),
    {
        let m = RemoteAppManager { apps: Vec::new(), cancelled: Vec::new(), next_id: 1 };
        assert(m@.apps =~= seq![]);
        m
    }
}

impl RemoteAppManager {
    /// The id the next launch gets.
    pub fn next_id(&self) -> (n: u64)
        ensures
            n == self@.next_id,
    {
        self.next_id
    }

    /// The position of the first application with `id`.
    fn position(&self, id: u64) -> (p: Option<usize>)
        ensures
            match p {
                Some(i) => i < self.apps@.len() && self@.apps[i as int].info.id == id && find_app(
                    self@.apps,
                    id,
                ) == Some(i as int),
                None => find_app(self@.apps, id) is None,
            },
    {
        let ghost apps = self@.apps;
        proof {
            lemma_find_app(apps, id);
        }
        let mut i: usize = 0;
        while i < self.apps.len()
            invariant
                apps == self@.apps,
                i <= apps.len(),
                forall|j: int| 0 <= j < i ==> apps[j].info.id != id,
            decreases apps.len() - i,
        {
            assert(apps[i as int] == self.apps@[i as int]@);
            if self.apps[i].info.id == id {
                proof {
                    lemma_find_app(apps, id);
                    match find_app(apps, id) {
                        Some(k) => {
                            if k < i as int {
                                assert(apps[k].info.id != id);
                            }
                            if k > i as int {
                                assert(apps[i as int].info.id != id);
                            }
                        },
                        None => {
                            assert(apps[i as int].info.id != id);
                        },
                    }
                }
                return Some(i);
            }
            i = i + 1;
        }
        None
    }

    /// Whether `id` is among the cancelled launches.
    fn is_cancelled(&self, id: u64) -> (b: bool)
        ensures
            b == self@.cancelled.contains(id),
    {
        let mut i: usize = 0;
        while i < self.cancelled.len()
            invariant
                i <= self.cancelled@.len(),
                forall|j: int| 0 <= j < i ==> self.cancelled@[j] != id,
            decreases self.cancelled@.len() - i,
        {
            if self.cancelled[i] == id {
                return true;
            }
            i = i + 1;
        }
        false
    }

    /// Forget `id` as a cancelled launch.
    fn uncancel(&mut self, id: u64)
        ensures
            final(self)@ == (ManagerView { cancelled: without(old(self)@.cancelled, id), ..old(self)@ }),
    {
        let ghost ids = self.cancelled@;
        let mut kept: Vec<u64> = Vec::new();
        let mut i: usize = 0;
        while i < self.cancelled.len()
            invariant
                ids == self.cancelled@,
                i <= ids.len(),
                kept@ == without(ids.take(i as int), id),
            decreases ids.len() - i,
        {
            assert(ids.take(i + 1).drop_last() == ids.take(i as int));
            if self.cancelled[i] != id {
                kept.push(self.cancelled[i]);
            }
            i = i + 1;
        }
        assert(ids.take(ids.len() as int) == ids);
        self.cancelled = kept;
    }

    /// Replace the application at `i`.
    fn put(&mut self, i: usize, app: TrackedApp)
        requires
            i < old(self)@.apps.len(),
        ensures
            final(self)@ == (ManagerView { apps: old(self)@.apps.update(i as int, app@), ..old(self)@ }),
    {
        let ghost before = self@;
        self.apps.set(i, app);
        assert(self@.apps =~= before.apps.update(i as int, app@));
    }

    /// The listed applications, in launch order.
    pub fn apps(&self) -> (v: Vec<RemoteAppInfo>)
        ensures
            info_views(v@) == self@.apps.map_values(|e: TrackedView| e.info),
    {
        let ghost apps = self@.apps;
        let mut v: Vec<RemoteAppInfo> = Vec::new();
        let mut i: usize = 0;
        while i < self.apps.len()
            invariant
                apps == self@.apps,
                i <= apps.len(),
                info_views(v@) == apps.take(i as int).map_values(|e: TrackedView| e.info),
            decreases apps.len() - i,
        {
            assert(apps[i as int] == self.apps@[i as int]@);
            v.push(copy_info(&self.apps[i].info));
            assert(apps.take(i + 1).map_values(|e: TrackedView| e.info) =~= apps.take(i as int).map_values(
                |e: TrackedView| e.info,
            ).push(apps[i as int].info));
            assert(info_views(v@) =~= info_views(v@.drop_last()).push(v@.last()@));
            i = i + 1;
        }
        assert(apps.take(apps.len() as int) == apps);
        v
    }

    /// Whether some application has finished.
    pub fn has_finished(&self) -> (b: bool)
        ensures
            b == exists|i: int| 0 <= i < self@.apps.len() && finished(#[trigger] self@.apps[i].info.status),
    {
        let ghost apps = self@.apps;
        let mut i: usize = 0;
        while i < self.apps.len()
            invariant
                apps == self@.apps,
                i <= apps.len(),
                forall|j: int| 0 <= j < i ==> !finished(#[trigger] apps[j].info.status),
            decreases apps.len() - i,
        {
            assert(apps[i as int] == self.apps@[i as int]@);
            if self.apps[i].info.status.is_finished() {
                assert(finished(apps[i as int].info.status));
                return true;
            }
            i = i + 1;
        }
        false
    }

    /// Drop the finished applications.
    pub fn clear_finished(&mut self)
        ensures
            final(self)@ == (ManagerView { apps: unfinished(old(self)@.apps), ..old(self)@ }),
    {
        let ghost apps = self@.apps;
        let mut kept: Vec<TrackedApp> = Vec::new();
        let mut i: usize = 0;
        while i < self.apps.len()
            invariant
                apps == self@.apps,
                i <= apps.len(),
                kept@.map_values(|a: TrackedApp| a@) == unfinished(apps.take(i as int)),
            decreases apps.len() - i,
        {
            assert(apps[i as int] == self.apps@[i as int]@);
            assert(apps.take(i + 1).drop_last() == apps.take(i as int));
            assert(apps.take(i + 1).last() == apps[i as int]);
            if !self.apps[i].info.status.is_finished() {
                let ghost before = kept@;
                let app = self.apps[i].copy();
                kept.push(app);
                assert(kept@.map_values(|a: TrackedApp| a@) =~= before.map_values(|a: TrackedApp| a@).push(
                    apps[i as int],
                ));
            }
            i = i + 1;
        }
        assert(apps.take(apps.len() as int) == apps);
        let ghost before = self@;
        self.apps = kept;
        assert(self@ == ManagerView { apps: unfinished(before.apps), ..before });
    }

    /// Register the launch of `command`: it is split into words without a
    /// shell, finished applications are cleared, and the new application is
    /// listed as starting. Returns its id and words; the caller starts the
    /// process and reports back with [`Self::launch_ready`] or
    /// [`Self::launch_failed`]. A command that cannot be run changes nothing.
    pub fn launch(&mut self, command: &str) -> (r: Result<(u64, Vec<String>), String>)
        requires
            old(self)@.next_id < u64::MAX,
        ensures
            match r {
                Ok((id, argv)) => command_error(command@) is None && shell_words_split(command@) == Some(
                    string_views(argv@),
                ) && id == old(self)@.next_id && final(self)@ == launched(old(self)@, command@),
                Err(m) => command_error(command@) == Some(m@) && final(self)@ == old(self)@,
            },
    {
        let argv = match parse_remote_command(command) {
            Ok(argv) => argv,
            Err(m) => return Err(m),
        };
        self.clear_finished();
        let id = self.next_id;
        self.next_id = self.next_id + 1;
        let trimmed = string_of(&trim_chars(&chars_of(command)));
        let ghost before = self@;
        self.apps.push(
            TrackedApp {
                info: RemoteAppInfo { id, command: trimmed, status: RemoteAppStatus::Starting },
                has_child: false,
                pending_exit: None,
            },
        );
        assert(self@.apps =~= before.apps.push(self.apps@.last()@));
        Ok((id, argv))
    }

    /// The process of launch `id` is ready. Returns whether the caller keeps
    /// it; when `false`, the caller stops it.
    pub fn launch_ready(&mut self, id: u64) -> (keep: bool)
        ensures
            (final(self)@, keep) == readied(old(self)@, id),
    {
        let i = match self.position(id) {
            Some(i) => i,
            None => return false,
        };
        let ghost e = self@.apps[i as int];
        assert(e == self.apps@[i as int]@);
        if self.is_cancelled(id) {
            self.uncancel(id);
            let app = TrackedApp {
                info: RemoteAppInfo {
                    id: self.apps[i].info.id,
                    command: self.apps[i].info.command.clone(),
                    status: RemoteAppStatus::Exited("stopped".to_owned()),
                },
                has_child: self.apps[i].has_child,
                pending_exit: self.apps[i].pending_exit,
            };
            self.put(i, app);
            false
        } else {
            let app = TrackedApp {
                info: RemoteAppInfo {
                    id: self.apps[i].info.id,
                    command: self.apps[i].info.command.clone(),
                    status: RemoteAppStatus::Running,
                },
                has_child: true,
                pending_exit: None,
            };
            self.put(i, app);
            true
        }
    }

    /// Launch `id` failed with `error`.
    pub fn launch_failed(&mut self, id: u64, error: String)
        ensures
            final(self)@ == launch_failure(old(self)@, id, error@),
    {
        let i = match self.position(id) {
            Some(i) => i,
            None => return,
        };
        if self.is_cancelled(id) {
            self.uncancel(id);
        } else {
            let app = TrackedApp {
                info: RemoteAppInfo {
                    id: self.apps[i].info.id,
                    command: self.apps[i].info.command.clone(),
                    status: RemoteAppStatus::Failed(error),
                },
                has_child: self.apps[i].has_child,
                pending_exit: self.apps[i].pending_exit,
            };
            self.put(i, app);
        }
    }

    /// The process of `id` ended (`success`, exit `code`); its error output
    /// is still being read.
    pub fn child_exited(&mut self, id: u64, success: bool, code: Option<i32>)
        ensures
            final(self)@ == exited(old(self)@, id, success, code),
    {
        let i = match self.position(id) {
            Some(i) => i,
            None => return,
        };
        let text = "collecting diagnostics…".to_owned();
        let app = TrackedApp {
            info: RemoteAppInfo {
                id: self.apps[i].info.id,
                command: self.apps[i].info.command.clone(),
                status: if success {
                    RemoteAppStatus::Exited(text)
                } else {
                    RemoteAppStatus::Failed(text)
                },
            },
            has_child: false,
            pending_exit: Some((success, code)),
        };
        self.put(i, app);
    }

    /// The process of `id` could not be observed (`error`); the caller
    /// stopped it and hands over what it had of its error output.
    pub fn wait_failed(&mut self, id: u64, error: &str, stderr: &str)
        ensures
            final(self)@ == unobservable(old(self)@, id, error@, stderr@),
    {
        let i = match self.position(id) {
            Some(i) => i,
            None => return,
        };
        let mut detail = chars_of("could not observe waypipe process: ");
        push_str(&mut detail, error);
        push_str(&mut detail, "; ");
        push_str(&mut detail, stderr);
        let detail = string_of(&detail);
        let app = TrackedApp {
            info: RemoteAppInfo {
                id: self.apps[i].info.id,
                command: self.apps[i].info.command.clone(),
                status: RemoteAppStatus::Failed(exit_details(None, detail.as_str())),
            },
            has_child: false,
            pending_exit: self.apps[i].pending_exit,
        };
        self.put(i, app);
    }

    /// The error output of the ended process of `id` is known.
    pub fn diagnostics_ready(&mut self, id: u64, stderr: &str)
        ensures
            final(self)@ == diagnosed(old(self)@, id, stderr@),
    {
        let i = match self.position(id) {
            Some(i) => i,
            None => return,
        };
        let (success, code) = match self.apps[i].pending_exit {
            Some(p) => p,
            None => return,
        };
        let status = completed_status(success, code, stderr);
        let app = TrackedApp {
            info: RemoteAppInfo {
                id: self.apps[i].info.id,
                command: self.apps[i].info.command.clone(),
                status,
            },
            has_child: self.apps[i].has_child,
            pending_exit: None,
        };
        self.put(i, app);
    }

    /// Stop application `id`. Returns whether the caller must stop its
    /// process.
    pub fn stop(&mut self, id: u64) -> (kill: bool)
        ensures
            (final(self)@, kill) == stopped(old(self)@, id),
    {
        let i = match self.position(id) {
            Some(i) => i,
            None => return false,
        };
        let starting = match self.apps[i].info.status {
            RemoteAppStatus::Starting => true,
            _ => false,
        };
        if self.apps[i].has_child {
            let app = TrackedApp {
                info: RemoteAppInfo {
                    id: self.apps[i].info.id,
                    command: self.apps[i].info.command.clone(),
                    status: RemoteAppStatus::Exited("stopped".to_owned()),
                },
                has_child: false,
                pending_exit: None,
            };
            self.put(i, app);
            true
        } else if starting {
            if !self.is_cancelled(id) {
                self.cancelled.push(id);
            }
            let app = TrackedApp {
                info: RemoteAppInfo {
                    id: self.apps[i].info.id,
                    command: self.apps[i].info.command.clone(),
                    status: RemoteAppStatus::Exited("stopped".to_owned()),
                },
                has_child: false,
                pending_exit: self.apps[i].pending_exit,
            };
            self.put(i, app);
            false
        } else {
            false
        }
    }

    /// Stop every application, in launch order. Returns the ids whose
    /// process the caller must stop.
    pub fn stop_all(&mut self) -> (kill: Vec<u64>)
        ensures
            (final(self)@, kill@) == stopped_all(old(self)@, app_ids(old(self)@.apps)),
    {
        let ghost start = self@;
        let ghost ids = app_ids(start.apps);
        let mut snapshot: Vec<u64> = Vec::new();
        let mut i: usize = 0;
        while i < self.apps.len()
            invariant
                self@ == start,
                ids == app_ids(start.apps),
                i <= self.apps@.len(),
                snapshot@ == ids.take(i as int),
            decreases self.apps@.len() - i,
        {
            assert(self@.apps[i as int] == self.apps@[i as int]@);
            snapshot.push(self.apps[i].info.id);
            assert(ids.take(i + 1) =~= ids.take(i as int).push(ids[i as int]));
            i = i + 1;
        }
        assert(ids.take(ids.len() as int) == ids);
        let mut kill: Vec<u64> = Vec::new();
        let mut k: usize = 0;
        while k < snapshot.len()
            invariant
                snapshot@ == ids,
                k <= ids.len(),
                (self@, kill@) == stopped_all(start, ids.take(k as int)),
            decreases ids.len() - k,
        {
            let id = snapshot[k];
            assert(ids.take(k + 1).drop_last() == ids.take(k as int));
            if self.stop(id) {
                kill.push(id);
            }
            k = k + 1;
        }
        kill
    }

    /// The ids of the applications whose process is alive.
    pub fn live_ids(&self) -> (ids: Vec<u64>)
        ensures
            ids@ == live_ids(self@.apps),
    {
        let ghost apps = self@.apps;
        let mut ids: Vec<u64> = Vec::new();
        let mut i: usize = 0;
        while i < self.apps.len()
            invariant
                apps == self@.apps,
                i <= apps.len(),
                ids@ == live_ids(apps.take(i as int)),
            decreases apps.len() - i,
        {
            assert(apps[i as int] == self.apps@[i as int]@);
            assert(apps.take(i + 1).drop_last() == apps.take(i as int));
            if self.apps[i].has_child {
                ids.push(self.apps[i].info.id);
            }
            i = i + 1;
        }
        assert(apps.take(apps.len() as int) == apps);
        ids
    }

    /// The ids of the applications whose error output is awaited.
    pub fn pending_ids(&self) -> (ids: Vec<u64>)
        ensures
            ids@ == pending_ids(self@.apps),
    {
        let ghost apps = self@.apps;
        let mut ids: Vec<u64> = Vec::new();
        let mut i: usize = 0;
        while i < self.apps.len()
            invariant
                apps == self@.apps,
                i <= apps.len(),
                ids@ == pending_ids(apps.take(i as int)),
            decreases apps.len() - i,
        {
            assert(apps[i as int] == self.apps@[i as int]@);
            assert(apps.take(i + 1).drop_last() == apps.take(i as int));
            if self.apps[i].pending_exit.is_some() {
                ids.push(self.apps[i].info.id);
            }
            i = i + 1;
        }
        assert(apps.take(apps.len() as int) == apps);
        ids
    }
}

} // verus!
