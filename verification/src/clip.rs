//! Sending a clipboard image to the remote host: the remote paths, the upload
//! command, the record of the last session, and the OSC 52 clipboard text.

use vstd::prelude::*;

use crate::shell::{login_shell_command, quote, shell_quoted};
use crate::text::{chars_of, decimal, has_prefix, lines, push_decimal, push_str, split_lines, starts_with, string_of};

verus! {

broadcast use vstd::string::group_string_axioms;

/// The latest uploaded image, always at the same remote path.
pub open spec fn latest_path_text() -> Seq<char> {
    "/tmp/autotun-clip.png"@
}

/// A character kept in a file name made from a destination.
pub open spec fn is_destination_safe(c: char) -> bool {
    ('a' <= c && c <= 'z') || ('A' <= c && c <= 'Z') || ('0' <= c && c <= '9') || c == '.' || c
        == '_' || c == '-' || c == '@' || c == '+'
}

/// A destination as a file name: other characters become `_`; an empty
/// destination becomes `session`.
pub open spec fn sanitized_destination(d: Seq<char>) -> Seq<char> {
    if d.len() == 0 {
        "session"@
    } else {
        d.map_values(|c: char| if is_destination_safe(c) { c } else { '_' })
    }
}

/// A destination made safe to use in a file name.
pub fn sanitize_destination(destination: &str) -> (name: String)
    ensures
        name@ == sanitized_destination(destination@),
{
    let chars = chars_of(destination);
    if chars.len() == 0 {
        return "session".to_owned();
    }
    let mut out: Vec<char> = Vec::new();
    let mut i: usize = 0;
    while i < chars.len()
        invariant
            i <= chars@.len(),
            out@ == chars@.take(i as int).map_values(|c: char| if is_destination_safe(c) { c } else { '_' }),
        decreases chars@.len() - i,
    {
        let c = chars[i];
        let safe = ('a' <= c && c <= 'z') || ('A' <= c && c <= 'Z') || ('0' <= c && c <= '9') || c
            == '.' || c == '_' || c == '-' || c == '@' || c == '+';
        out.push(if safe { c } else { '_' });
        assert(chars@.take(i + 1).map_values(|c: char| if is_destination_safe(c) { c } else { '_' })
            =~= chars@.take(i as int).map_values(|c: char| if is_destination_safe(c) { c } else { '_' }).push(
            if is_destination_safe(c) { c } else { '_' },
        ));
        i = i + 1;
    }
    assert(chars@.take(chars@.len() as int) == chars@);
    string_of(&out)
}

/// The remote path of an image uploaded at `secs` seconds after the epoch.
pub open spec fn unique_path_text(secs: u64) -> Seq<char> {
    "/tmp/autotun-clip-"@ + decimal(secs as nat) + ".png"@
}

/// The remote path of an image uploaded at `secs` seconds after the epoch.
pub fn remote_unique_path_at(secs: u64) -> (path: String)
    ensures
        path@ == unique_path_text(secs),
{
    let mut out = chars_of("/tmp/autotun-clip-");
    push_decimal(&mut out, secs as u128);
    push_str(&mut out, ".png");
    string_of(&out)
}

/// The current time in whole seconds since the Unix epoch
/// (`SystemTime::now`), 0 when the clock is before the epoch. Nothing is
/// promised of the value: it depends on the clock.
#[verifier::external_body]
fn unix_seconds() -> u64 {
    match std::time::SystemTime::now().duration_since(std::time::UNIX_EPOCH) {
        Ok(d) => d.as_secs(),
        Err(_) => 0,
    }
}

/// A fresh remote path for an uploaded image, named after the current time.
pub fn remote_unique_path() -> (path: String)
    ensures
        exists|secs: u64| path@ == unique_path_text(secs),
{
    let secs = unix_seconds();
    remote_unique_path_at(secs)
}

/// The path that always holds the latest uploaded image.
pub fn remote_latest_path() -> (path: &'static str)
    ensures
        path@ == latest_path_text(),
{
    "/tmp/autotun-clip.png"
}

/// The remote shell script that stores an upload read from standard input at
/// `remote`, private to the user, and points the latest path at it.
pub open spec fn upload_script_text(remote: Seq<char>) -> Seq<char> {
    "umask 077 && cat > "@ + shell_quoted(remote) + " && ln -sfn "@ + shell_quoted(remote) + " "@
        + shell_quoted(latest_path_text())
}

/// The remote command line of an upload to `remote_path`.
pub fn upload_command(remote_path: &str) -> (command: String)
    ensures
        command@ == "sh -lc "@ + shell_quoted(upload_script_text(remote_path@)),
{
    let q = quote(remote_path);
    let latest = quote("/tmp/autotun-clip.png");
    let mut script = "umask 077 && cat > ".to_owned();
    script.append(q.as_str());
    script.append(" && ln -sfn ");
    script.append(q.as_str());
    script.append(" ");
    script.append(latest.as_str());
    login_shell_command(script.as_str())
}

/// The local shell command that tells whether `name` is installed.
pub fn command_exists_script(name: &str) -> (script: String)
    ensures
        script@ == "command -v "@ + shell_quoted(name@) + " >/dev/null"@,
{
    let mut s = "command -v ".to_owned();
    let q = quote(name);
    s.append(q.as_str());
    s.append(" >/dev/null");
    s
}

/// The eight bytes every PNG file begins with.
pub open spec fn png_signature() -> Seq<u8> {
    seq![0x89u8, 0x50, 0x4E, 0x47, 0x0D, 0x0A, 0x1A, 0x0A]
}

/// Whether `data` begins with the PNG signature.
pub fn is_png(data: &[u8]) -> (b: bool)
    ensures
        b == (data@.len() >= 8 && data@.take(8) == png_signature()),
{
    if data.len() < 8 {
        return false;
    }
    let sig: Vec<u8> = vec![0x89u8, 0x50, 0x4E, 0x47, 0x0D, 0x0A, 0x1A, 0x0A];
    let mut i: usize = 0;
    while i < 8
        invariant
            data@.len() >= 8,
            sig@ == png_signature(),
            i <= 8,
            forall|j: int| 0 <= j < i ==> data@[j] == sig@[j],
        decreases 8 - i,
    {
        if data[i] != sig[i] {
            assert(data@.take(8)[i as int] != png_signature()[i as int]);
            return false;
        }
        i = i + 1;
    }
    assert(data@.take(8) =~= png_signature());
    true
}

/// A clipboard program.
#[derive(Clone, Copy, Debug, PartialEq, Eq, Structural)]
pub enum ClipboardTool {
    /// `wl-paste` / `wl-copy` (Wayland).
    WlClipboard,
    /// `xclip` (X11).
    Xclip,
}

/// The clipboard program to use: `wl-clipboard` in a Wayland session when
/// installed, else `xclip`, else `wl-clipboard` when installed.
pub fn choose_clipboard_tool(wayland: bool, has_wl_clipboard: bool, has_xclip: bool) -> (tool: Option<ClipboardTool>)
    ensures
        tool == (if wayland && has_wl_clipboard {
            Some(ClipboardTool::WlClipboard)
        } else if has_xclip {
            Some(ClipboardTool::Xclip)
        } else if has_wl_clipboard {
            Some(ClipboardTool::WlClipboard)
        } else {
            None
        }),
{
    if wayland && has_wl_clipboard {
        Some(ClipboardTool::WlClipboard)
    } else if has_xclip {
        Some(ClipboardTool::Xclip)
    } else if has_wl_clipboard {
        Some(ClipboardTool::WlClipboard)
    } else {
        None
    }
}

// ---------------------------------------------------------------------------
// The last session record
// ---------------------------------------------------------------------------

/// The destination and control socket of the most recent session.
#[derive(Clone, Debug, PartialEq, Eq)]
pub struct LastSession {
    pub destination: String,
    pub socket: String,
}

/// The record of a session: two `key=value` lines.
pub open spec fn session_record(destination: Seq<char>, socket: Seq<char>) -> Seq<char> {
    "destination="@ + destination + "\n"@ + "socket="@ + socket + "\n"@
}

/// The record of a session, as written to the runtime directory.
pub fn last_session_text(destination: &str, socket: &str) -> (text: String)
    ensures
        text@ == session_record(destination@, socket@),
{
    let mut s = "destination=".to_owned();
    s.append(destination);
    s.append("\n");
    s.append("socket=");
    s.append(socket);
    s.append("\n");
    s
}

/// Where `autotun clip` uploads: the host given, else the last session's.
/// The last session's control socket is offered for reuse when it belongs to
/// that host; the caller checks that it is alive.
pub open spec fn clip_route(destination: Option<Seq<char>>, last: Option<(Seq<char>, Seq<char>)>) -> Result<(Seq<char>, Option<Seq<char>>), Seq<char>> {
    let host = match destination {
        Some(d) => Some(d),
        None => match last {
            Some((d, _)) => Some(d),
            None => None,
        },
    };
    match host {
        None => Err("no host: pass one (`autotun clip user@host`) or start autotun first"@),
        Some(h) => Ok((h, match last {
            Some((d, s)) => if d == h {
                Some(s)
            } else {
                None
            },
            None => None,
        })),
    }
}

/// Where `autotun clip` uploads, and which control socket it may reuse.
pub fn clip_target(destination: Option<String>, last: Option<LastSession>) -> (r: Result<(String, Option<String>), String>)
    ensures
        match r {
            Ok((h, s)) => clip_route(
                match destination {
                    Some(d) => Some(d@),
                    None => None,
                },
                match last {
                    Some(l) => Some((l.destination@, l.socket@)),
                    None => None,
                },
            ) == Ok::<(Seq<char>, Option<Seq<char>>), Seq<char>>((h@, match s {
                Some(x) => Some(x@),
                None => None,
            })),
            Err(m) => clip_route(
                match destination {
                    Some(d) => Some(d@),
                    None => None,
                },
                match last {
                    Some(l) => Some((l.destination@, l.socket@)),
                    None => None,
                },
            ) == Err::<(Seq<char>, Option<Seq<char>>), Seq<char>>(m@),
        },
{
    let host = match destination {
        Some(d) => d,
        None => match &last {
            Some(l) => l.destination.clone(),
            None => {
                return Err("no host: pass one (`autotun clip user@host`) or start autotun first".to_owned());
            },
        },
    };
    let socket = match last {
        Some(l) => if l.destination == host {
            Some(l.socket)
        } else {
            None
        },
        None => None,
    };
    Ok((host, socket))
}

/// The `destination=` key.
pub open spec fn destination_key() -> Seq<char> {
    seq!['d', 'e', 's', 't', 'i', 'n', 'a', 't', 'i', 'o', 'n', '=']
}

/// The `socket=` key.
pub open spec fn socket_key() -> Seq<char> {
    seq!['s', 'o', 'c', 'k', 'e', 't', '=']
}

/// Reading a record's lines: the last value of each key.
pub open spec fn record_fields(ls: Seq<Seq<char>>) -> (Option<Seq<char>>, Option<Seq<char>>)
    decreases ls.len(),
{
    if ls.len() == 0 {
        (None, None)
    } else {
        let (d, s) = record_fields(ls.drop_last());
        let l = ls.last();
        if starts_with(l, destination_key()) {
            (Some(l.skip(12)), s)
        } else if starts_with(l, socket_key()) {
            (d, Some(l.skip(7)))
        } else {
            (d, s)
        }
    }
}

/// The session a record names, when it has both keys.
pub open spec fn parsed_record(text: Seq<char>) -> Option<(Seq<char>, Seq<char>)> {
    let (d, s) = record_fields(lines(text));
    if d is Some && s is Some {
        Some((d->0, s->0))
    } else {
        None
    }
}

/// The characters of `v` from `start` on.
fn skip_chars(v: &Vec<char>, start: usize) -> (out: Vec<char>)
    requires
        start <= v@.len(),
    ensures
        out@ == v@.skip(start as int),
{
    let mut out: Vec<char> = Vec::new();
    let mut i: usize = start;
    while i < v.len()
        invariant
            start <= i <= v@.len(),
            out@ == v@.subrange(start as int, i as int),
        decreases v@.len() - i,
    {
        out.push(v[i]);
        i = i + 1;
    }
    out
}

/// Read a session record.
pub fn parse_last_session(text: &str) -> (session: Option<LastSession>)
    ensures
        match session {
            Some(s) => parsed_record(text@) == Some((s.destination@, s.socket@)),
            None => parsed_record(text@) is None,
        },
{
    let chars = chars_of(text);
    let ls = split_lines(&chars);
    let ghost lv = ls.deep_view();
    let dkey: Vec<char> = vec!['d', 'e', 's', 't', 'i', 'n', 'a', 't', 'i', 'o', 'n', '='];
    let skey: Vec<char> = vec!['s', 'o', 'c', 'k', 'e', 't', '='];
    let mut destination: Option<Vec<char>> = None;
    let mut socket: Option<Vec<char>> = None;
    let mut i: usize = 0;
    while i < ls.len()
        invariant
            i <= ls@.len(),
            lv == ls.deep_view(),
            dkey@ == destination_key(),
            skey@ == socket_key(),
            record_fields(lv.take(i as int)) == (crate::ports::opt_chars(destination), crate::ports::opt_chars(socket)),
        decreases ls@.len() - i,
    {
        let l = &ls[i];
        assert(l@ == lv[i as int]);
        assert(lv.take(i + 1).drop_last() == lv.take(i as int));
        assert(lv.take(i + 1).last() == lv[i as int]);
        if has_prefix(l, &dkey) {
            destination = Some(skip_chars(l, 12));
        } else if has_prefix(l, &skey) {
            socket = Some(skip_chars(l, 7));
        }
        i = i + 1;
    }
    assert(lv.take(ls@.len() as int) == lv);
    match (destination, socket) {
        (Some(d), Some(s)) => Some(LastSession { destination: string_of(&d), socket: string_of(&s) }),
        _ => None,
    }
}

proof fn lemma_segments_plain(p: Seq<char>, x: Seq<char>, sep: char)
    requires
        !x.contains(sep),
    ensures
        crate::text::segments_acc(p + x, sep) == (crate::text::segments_acc(p, sep).0, crate::text::segments_acc(p, sep).1 + x),
    decreases x.len(),
{
    if x.len() == 0 {
        assert(p + x == p);
        assert(crate::text::segments_acc(p, sep).1 + x == crate::text::segments_acc(p, sep).1);
    } else {
        let y = x.drop_last();
        assert(!y.contains(sep)) by {
            if y.contains(sep) {
                let i = choose|i: int| 0 <= i < y.len() && y[i] == sep;
                assert(x[i] == sep);
            }
        }
        lemma_segments_plain(p, y, sep);
        assert((p + x).drop_last() == p + y);
        assert((p + x).last() == x.last());
        assert(x.last() != sep) by {
            assert(x[x.len() - 1] == x.last());
        }
        assert(crate::text::segments_acc(p, sep).1 + y + seq![x.last()] == crate::text::segments_acc(p, sep).1 + x);
    }
}

proof fn lemma_segments_sep(p: Seq<char>, sep: char)
    ensures
        crate::text::segments_acc(p.push(sep), sep) == (crate::text::segments_acc(p, sep).0.push(crate::text::segments_acc(p, sep).1), Seq::<char>::empty()),
{
    assert(p.push(sep).drop_last() == p);
}

/// A written session record reads back as the same session, when neither
/// value holds a newline or ends with a carriage return.
pub proof fn session_record_round_trip(destination: Seq<char>, socket: Seq<char>)
    requires
        !destination.contains('\n'),
        !socket.contains('\n'),
        destination.len() == 0 || destination.last() != '\r',
        socket.len() == 0 || socket.last() != '\r',
    ensures
        parsed_record(session_record(destination, socket)) == Some((destination, socket)),
{
    reveal_strlit("destination=");
    reveal_strlit("socket=");
    reveal_strlit("\n");
    let l1 = destination_key() + destination;
    let l2 = socket_key() + socket;
    assert("destination="@ == destination_key());
    assert("socket="@ == socket_key());
    assert("\n"@ == seq!['\n']);
    let text = session_record(destination, socket);
    assert(text == (l1.push('\n') + l2).push('\n'));
    let e = Seq::<char>::empty();
    assert(!l1.contains('\n')) by {
        if l1.contains('\n') {
            let i = choose|i: int| 0 <= i < l1.len() && l1[i] == '\n';
            if i >= 12 {
                assert(destination[i - 12] == '\n');
            }
        }
    }
    assert(!l2.contains('\n')) by {
        if l2.contains('\n') {
            let i = choose|i: int| 0 <= i < l2.len() && l2[i] == '\n';
            if i >= 7 {
                assert(socket[i - 7] == '\n');
            }
        }
    }
    assert(e + l1 == l1);
    lemma_segments_plain(e, l1, '\n');
    assert(crate::text::segments_acc(e, '\n') == (Seq::<Seq<char>>::empty(), e));
    lemma_segments_sep(l1, '\n');
    lemma_segments_plain(l1.push('\n'), l2, '\n');
    assert(e + l2 == l2);
    lemma_segments_sep(l1.push('\n') + l2, '\n');
    let pieces = crate::text::segments(text, '\n');
    assert(pieces == seq![l1, l2, e]);
    let ls = lines(text);
    assert(strip_cr_id(l1) == l1);
    assert(ls =~= seq![l1, l2]) by {
        assert(l1.len() > 0 && l1.last() != '\r');
        assert(l2.len() > 0 && l2.last() != '\r');
    }
    assert(starts_with(l1, destination_key())) by {
        assert(l1.take(12) =~= destination_key());
    }
    assert(!starts_with(l2, destination_key()));
    assert(starts_with(l2, socket_key())) by {
        assert(l2.take(7) =~= socket_key());
    }
    assert(l1.skip(12) =~= destination);
    assert(l2.skip(7) =~= socket);
    assert(seq![l1, l2].drop_last() == seq![l1]);
    assert(seq![l1].drop_last() == Seq::<Seq<char>>::empty());
    assert(record_fields(Seq::<Seq<char>>::empty()) == (None::<Seq<char>>, None::<Seq<char>>));
    assert(record_fields(seq![l1]) == (Some(destination), None::<Seq<char>>));
    assert(record_fields(seq![l1, l2]) == (Some(destination), Some(socket)));
    assert(record_fields(ls) == (Some(destination), Some(socket)));
}

/// A line without one trailing carriage return.
spec fn strip_cr_id(l: Seq<char>) -> Seq<char> {
    crate::text::strip_cr(l)
}

// ---------------------------------------------------------------------------
// Base64 for OSC 52
// ---------------------------------------------------------------------------

/// The base64 symbol of a 6-bit value.
pub open spec fn b64_symbol(v: nat) -> char {
    if v < 26 {
        (65 + v) as char
    } else if v < 52 {
        (97 + v - 26) as char
    } else if v < 62 {
        (48 + v - 52) as char
    } else if v == 62 {
        '+'
    } else {
        '/'
    }
}

/// The four symbols of a group of `n` bytes (1 to 3), padded with `=`.
pub open spec fn b64_group(b0: u8, b1: u8, b2: u8, n: nat) -> Seq<char> {
    seq![
        b64_symbol((b0 / 4) as nat),
        b64_symbol(((b0 % 4) * 16 + b1 / 16) as nat),
        if n > 1 {
            b64_symbol(((b1 % 16) * 4 + b2 / 64) as nat)
        } else {
            '='
        },
        if n > 2 {
            b64_symbol((b2 % 64) as nat)
        } else {
            '='
        },
    ]
}

/// Standard base64 with `=` padding.
pub open spec fn base64(d: Seq<u8>) -> Seq<char>
    decreases d.len(),
{
    if d.len() == 0 {
        seq![]
    } else if d.len() >= 3 {
        b64_group(d[0], d[1], d[2], 3) + base64(d.skip(3))
    } else if d.len() == 2 {
        b64_group(d[0], d[1], 0, 2)
    } else {
        b64_group(d[0], 0, 0, 1)
    }
}

/// The base64 symbol of a 6-bit value.
fn b64_char(v: u8) -> (c: char)
    requires
        v < 64,
    ensures
        c == b64_symbol(v as nat),
{
    if v < 26 {
        (65u8 + v) as char
    } else if v < 52 {
        (97u8 + v - 26) as char
    } else if v < 62 {
        (48u8 + v - 52) as char
    } else if v == 62 {
        '+'
    } else {
        '/'
    }
}

/// Standard base64 (with `=` padding) of `data`.
pub fn base64_encode(data: &[u8]) -> (encoded: String)
    ensures
        encoded@ == base64(data@),
{
    let mut out: Vec<char> = Vec::new();
    let mut i: usize = 0;
    let n = data.len();
    assert(data@.skip(0) == data@);
    assert(out@ + base64(data@.skip(0)) =~= base64(data@));
    while i < n
        invariant
            n == data@.len(),
            i <= n,
            out@ + base64(data@.skip(i as int)) == base64(data@),
        decreases n - i,
    {
        let ghost rest = data@.skip(i as int);
        let left = n - i;
        let b0 = data[i];
        let b1: u8 = if left > 1 { data[i + 1] } else { 0 };
        let b2: u8 = if left > 2 { data[i + 2] } else { 0 };
        let ghost before = out@;
        out.push(b64_char(b0 / 4));
        out.push(b64_char((b0 % 4) * 16 + b1 / 16));
        if left > 1 {
            out.push(b64_char((b1 % 16) * 4 + b2 / 64));
        } else {
            out.push('=');
        }
        if left > 2 {
            out.push(b64_char(b2 % 64));
        } else {
            out.push('=');
        }
        assert(rest[0] == b0);
        if left >= 3 {
            assert(rest[1] == b1 && rest[2] == b2);
            assert(out@ == before + b64_group(b0, b1, b2, 3));
            assert(rest.skip(3) == data@.skip(i + 3));
            assert(before + base64(rest) == before + (b64_group(b0, b1, b2, 3) + base64(rest.skip(3))));
            assert(before + (b64_group(b0, b1, b2, 3) + base64(rest.skip(3))) =~= out@ + base64(data@.skip(i + 3)));
            i = i + 3;
        } else {
            if left == 2 {
                assert(rest[1] == b1);
                assert(out@ =~= before + b64_group(b0, b1, 0, 2));
            } else {
                assert(out@ =~= before + b64_group(b0, 0, 0, 1));
            }
            assert(data@.skip(n as int).len() == 0);
            assert(base64(data@.skip(n as int)) == Seq::<char>::empty());
            assert(out@ + base64(data@.skip(n as int)) =~= out@);
            i = n;
        }
    }
    assert(data@.skip(n as int).len() == 0);
    assert(out@ + base64(data@.skip(n as int)) =~= out@);
    string_of(&out)
}

/// Base64 text is four symbols for every three bytes, the last group padded.
pub proof fn base64_length(d: Seq<u8>)
    ensures
        base64(d).len() == 4 * ((d.len() + 2) / 3),
    decreases d.len(),
{
    if d.len() >= 3 {
        base64_length(d.skip(3));
    }
}

/// The OSC 52 escape sequence that puts `text` on the terminal's clipboard.
pub fn osc52_sequence(text: &str) -> (seq: String)
    ensures
        seq@ == "\u{1b}]52;c;"@ + base64(vstd::utf8::encode_utf8(text@)) + "\u{7}"@,
{
    let encoded = base64_encode(text.as_bytes());
    let mut s = "\u{1b}]52;c;".to_owned();
    s.append(encoded.as_str());
    s.append("\u{7}");
    s
}

} // verus!
