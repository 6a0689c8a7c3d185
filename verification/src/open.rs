//! Opening a remote file locally: reading the path out of pasted text, the
//! download command, and the local file name.

use vstd::prelude::*;

use crate::clip::{clip_route, clip_target, LastSession};

use crate::ports::opt_chars;
use crate::shell::{login_shell_command, login_shell_text, quote, shell_quoted};
use crate::text::{
    chars_of, decimal, has_prefix, is_ws, lossy_text, matches_at, occurs_at, push_decimal, push_str,
    split_whitespace, starts_with, string_of, tokens, trim, trim_chars, utf8_lossy, contains_char,
};

verus! {

broadcast use vstd::string::group_string_axioms;

/// The largest remote file that is downloaded: 64 MiB.
pub const MAX_DOWNLOAD_BYTES: u64 = 64 * 1024 * 1024;

/// Why pasted text is not a remote file path.
#[derive(Clone, Copy, Debug, PartialEq, Eq, Structural)]
pub enum OpenError {
    /// Nothing but whitespace (and wrappers) was pasted.
    Empty,
    /// An `http(s)://` URL.
    Http,
    /// Neither a path nor a `file://` URL, and none found in the text.
    NotAPath,
    /// The path holds NUL or a line break.
    InvalidPath,
    /// The path is relative.
    NotAbsolute,
}

/// The message of an error.
pub open spec fn open_error_text(e: OpenError) -> Seq<char> {
    match e {
        OpenError::Empty => "no file path to open (paste a remote path or file:// URL)"@,
        OpenError::Http => "http(s) URLs open in a browser; autotun open is for remote file paths"@,
        OpenError::NotAPath => "not a remote file path or file:// URL"@,
        OpenError::InvalidPath => "invalid remote path"@,
        OpenError::NotAbsolute => "remote path must be absolute (or start with ~/)"@,
    }
}

impl OpenError {
    /// The message shown for this error.
    pub fn message(&self) -> (m: &'static str)
        ensures
            m@ == open_error_text(*self),
    {
        match self {
            OpenError::Empty => "no file path to open (paste a remote path or file:// URL)",
            OpenError::Http => "http(s) URLs open in a browser; autotun open is for remote file paths",
            OpenError::NotAPath => "not a remote file path or file:// URL",
            OpenError::InvalidPath => "invalid remote path",
            OpenError::NotAbsolute => "remote path must be absolute (or start with ~/)",
        }
    }
}

// ---------------------------------------------------------------------------
// Specification of the path reader
// ---------------------------------------------------------------------------

/// ASCII lower case (other characters unchanged).
pub open spec fn ascii_lower(c: char) -> char {
    if 'A' <= c && c <= 'Z' {
        ((c as u32) + 32) as char
    } else {
        c
    }
}

/// Whether `s` begins with the lower-case ASCII text `p`, ignoring ASCII case.
pub open spec fn starts_with_ci(s: Seq<char>, p: Seq<char>) -> bool {
    p.len() <= s.len() && forall|i: int| 0 <= i < p.len() ==> ascii_lower(#[trigger] s[i]) == p[i]
}

/// `https://`.
pub open spec fn https_scheme() -> Seq<char> {
    seq!['h', 't', 't', 'p', 's', ':', '/', '/']
}

/// `http://`.
pub open spec fn http_scheme() -> Seq<char> {
    seq!['h', 't', 't', 'p', ':', '/', '/']
}

/// `file://`.
pub open spec fn file_scheme() -> Seq<char> {
    seq!['f', 'i', 'l', 'e', ':', '/', '/']
}

/// `~/`.
pub open spec fn home_prefix() -> Seq<char> {
    seq!['~', '/']
}

/// Whether text is an HTTP(S) URL (scheme in any ASCII case).
pub open spec fn is_http_text(s: Seq<char>) -> bool {
    starts_with_ci(s, https_scheme()) || starts_with_ci(s, http_scheme())
}

/// Text without one pair of matching single or double quotes around it.
pub open spec fn unquoted(s: Seq<char>) -> Seq<char> {
    if s.len() >= 2 && s[0] == s.last() && (s[0] == '\'' || s[0] == '"') {
        s.subrange(1, s.len() - 1)
    } else {
        s
    }
}

/// Text without `<...>` around it and without surrounding quotes.
pub open spec fn unwrapped(s: Seq<char>) -> Seq<char> {
    let inner = if s.len() >= 2 && s[0] == '<' && s.last() == '>' {
        s.subrange(1, s.len() - 1)
    } else {
        s
    };
    unquoted(trim(inner))
}

/// Whether `c` is an ASCII hexadecimal digit, and its value.
pub open spec fn hex_value(c: u8) -> Option<u8> {
    if 48 <= c && c <= 57 {
        Some((c - 48) as u8)
    } else if 97 <= c && c <= 102 {
        Some((c - 87) as u8)
    } else if 65 <= c && c <= 70 {
        Some((c - 55) as u8)
    } else {
        None
    }
}

/// The byte two characters after `%` stand for, as `u8::from_str_radix(_, 16)`
/// reads them (which accepts a leading `+` before a single digit).
pub open spec fn escape_value(x: u8, y: u8) -> Option<u8> {
    match (hex_value(x), hex_value(y)) {
        (Some(a), Some(b)) => Some((a * 16 + b) as u8),
        (None, Some(b)) => if x == 43 {
            Some(b)
        } else {
            None
        },
        _ => None,
    }
}

/// Bytes with each `%XY` escape replaced by the byte it stands for; a `%`
/// that is not followed by two bytes forming an escape stays as it is.
pub open spec fn percent_decoded(b: Seq<u8>) -> Seq<u8>
    decreases b.len(),
{
    if b.len() == 0 {
        seq![]
    } else if b[0] == 37 && b.len() > 2 && escape_value(b[1], b[2]) is Some {
        seq![escape_value(b[1], b[2])->0] + percent_decoded(b.skip(3))
    } else {
        seq![b[0]] + percent_decoded(b.skip(1))
    }
}

/// `s` up to its first `?` or `#`.
pub open spec fn before_query(s: Seq<char>) -> Seq<char>
    decreases s.len(),
{
    if s.len() == 0 || s[0] == '?' || s[0] == '#' {
        seq![]
    } else {
        seq![s[0]] + before_query(s.drop_first())
    }
}

/// The position of the first `/` in `s`.
pub open spec fn first_slash(s: Seq<char>) -> Option<int>
    decreases s.len(),
{
    if s.len() == 0 {
        None
    } else if s[0] == '/' {
        Some(0)
    } else {
        match first_slash(s.drop_first()) {
            Some(k) => Some(k + 1),
            None => None,
        }
    }
}

/// The path of a `file://` URL (scheme in any ASCII case): the part before
/// any query or fragment, from its first `/` (so any host is dropped), with
/// percent escapes decoded; it must start with `/`.
pub open spec fn file_url_path(s: Seq<char>) -> Option<Seq<char>> {
    if !starts_with_ci(s, file_scheme()) {
        None
    } else {
        let rest = before_query(s.skip(7));
        let path = if rest.len() > 0 && rest[0] == '/' {
            Some(rest)
        } else {
            match first_slash(rest) {
                Some(k) => Some(rest.skip(k)),
                None => None,
            }
        };
        match path {
            None => None,
            Some(p) => {
                let decoded = utf8_lossy(percent_decoded(vstd::utf8::encode_utf8(p)));
                if decoded.len() > 0 && decoded[0] == '/' {
                    Some(decoded)
                } else {
                    None
                }
            },
        }
    }
}

/// A path from a `file://` URL, an absolute path, `~` or a path under `~/`.
pub open spec fn as_path(s: Seq<char>) -> Option<Seq<char>> {
    match file_url_path(s) {
        Some(p) => Some(p),
        None => if (s.len() > 0 && s[0] == '/') || s == seq!['~'] || starts_with(s, home_prefix()) {
            Some(s)
        } else {
            None
        },
    }
}

/// Punctuation that ends a pasted token without being part of it.
pub open spec fn is_trailing_punct(c: char) -> bool {
    c == ',' || c == ';' || c == ')' || c == ']' || c == '>' || c == '"' || c == '\''
}

/// A token without trailing punctuation.
pub open spec fn trim_punct(t: Seq<char>) -> Seq<char>
    decreases t.len(),
{
    if t.len() > 0 && is_trailing_punct(t.last()) {
        trim_punct(t.drop_last())
    } else {
        t
    }
}

/// The token that starts at position `k` of `text`, without trailing
/// punctuation.
pub open spec fn token_at(text: Seq<char>, k: int) -> Seq<char> {
    let toks = tokens(text.skip(k));
    trim_punct(if toks.len() > 0 { toks[0] } else { text.skip(k) })
}

/// The last `file://` URL (case-sensitive scheme) before position `k` of
/// `text` whose token reads as a path.
pub open spec fn last_url_path(text: Seq<char>, k: int) -> Option<Seq<char>>
    decreases k,
{
    if k <= 0 {
        None
    } else if occurs_at(text, file_scheme(), k - 1) && as_path(token_at(text, k - 1)) is Some {
        as_path(token_at(text, k - 1))
    } else {
        last_url_path(text, k - 1)
    }
}

/// The last token that, without trailing punctuation, starts with `/`.
pub open spec fn last_slash_token(toks: Seq<Seq<char>>) -> Option<Seq<char>>
    decreases toks.len(),
{
    if toks.len() == 0 {
        None
    } else {
        let t = trim_punct(toks.last());
        if t.len() > 0 && t[0] == '/' {
            Some(t)
        } else {
            last_slash_token(toks.drop_last())
        }
    }
}

/// A path somewhere in free text: the last absolute-path token, else the
/// path of the last `file://` URL.
pub open spec fn path_in_text(text: Seq<char>) -> Option<Seq<char>> {
    match last_slash_token(tokens(text)) {
        Some(p) => Some(p),
        None => last_url_path(text, text.len() as int),
    }
}

/// A path accepted as a remote file: not empty, without NUL or line breaks,
/// and absolute or under the home directory.
pub open spec fn checked_path(p: Seq<char>) -> Result<Seq<char>, OpenError> {
    if p.len() == 0 || p.contains('\0') || p.contains('\n') || p.contains('\r') {
        Err(OpenError::InvalidPath)
    } else if !((p.len() > 0 && p[0] == '/') || p == seq!['~'] || starts_with(p, home_prefix())) {
        Err(OpenError::NotAbsolute)
    } else {
        Ok(p)
    }
}

/// The remote path pasted text names.
pub open spec fn remote_ref(input: Seq<char>) -> Result<Seq<char>, OpenError> {
    let t = unwrapped(trim(input));
    if t.len() == 0 {
        Err(OpenError::Empty)
    } else if is_http_text(t) {
        Err(OpenError::Http)
    } else {
        match as_path(t) {
            Some(p) => checked_path(p),
            None => match path_in_text(t) {
                Some(p) => checked_path(p),
                None => Err(OpenError::NotAPath),
            },
        }
    }
}

// ---------------------------------------------------------------------------
// The path reader
// ---------------------------------------------------------------------------

/// Whether `s` begins with the lower-case ASCII text `p`, ignoring ASCII case.
fn has_prefix_ci(s: &Vec<char>, p: &Vec<char>) -> (b: bool)
    ensures
        b == starts_with_ci(s@, p@),
{
    if p.len() > s.len() {
        return false;
    }
    let mut i: usize = 0;
    while i < p.len()
        invariant
            p@.len() <= s@.len(),
            i <= p@.len(),
            forall|j: int| 0 <= j < i ==> ascii_lower(#[trigger] s@[j]) == p@[j],
        decreases p@.len() - i,
    {
        let c = s[i];
        let lower = if 'A' <= c && c <= 'Z' {
            ((c as u32 + 32) as u8) as char
        } else {
            c
        };
        assert(lower == ascii_lower(c));
        if lower != p[i] {
            return false;
        }
        i = i + 1;
    }
    true
}

/// `s` without one pair of matching quotes around it.
fn strip_quotes(s: &Vec<char>) -> (out: Vec<char>)
    ensures
        out@ == unquoted(s@),
{
    let n = s.len();
    assert(s@.subrange(0, n as int) == s@);
    if n >= 2 && s[0] == s[n - 1] && (s[0] == '\'' || s[0] == '"') {
        crate::text::slice_chars(s, 1, n - 1)
    } else {
        crate::text::slice_chars(s, 0, n)
    }
}

/// `s` without `<...>` around it and without surrounding quotes.
fn strip_wrappers(s: &Vec<char>) -> (out: Vec<char>)
    ensures
        out@ == unwrapped(s@),
{
    let n = s.len();
    assert(s@.subrange(0, n as int) == s@);
    let inner = if n >= 2 && s[0] == '<' && s[n - 1] == '>' {
        crate::text::slice_chars(s, 1, n - 1)
    } else {
        crate::text::slice_chars(s, 0, n)
    };
    strip_quotes(&trim_chars(&inner))
}

/// Whether text is an HTTP(S) URL.
fn looks_like_http(s: &Vec<char>) -> (b: bool)
    ensures
        b == is_http_text(s@),
{
    let https: Vec<char> = vec!['h', 't', 't', 'p', 's', ':', '/', '/'];
    let http: Vec<char> = vec!['h', 't', 't', 'p', ':', '/', '/'];
    has_prefix_ci(s, &https) || has_prefix_ci(s, &http)
}

/// The value of an ASCII hexadecimal digit.
fn hex_digit(c: u8) -> (v: Option<u8>)
    ensures
        v == hex_value(c),
{
    if 48 <= c && c <= 57 {
        Some(c - 48)
    } else if 97 <= c && c <= 102 {
        Some(c - 87)
    } else if 65 <= c && c <= 70 {
        Some(c - 55)
    } else {
        None
    }
}

/// The byte an escape stands for.
fn escape_byte(x: u8, y: u8) -> (v: Option<u8>)
    ensures
        v == escape_value(x, y),
{
    match (hex_digit(x), hex_digit(y)) {
        (Some(a), Some(b)) => Some(a * 16 + b),
        (None, Some(b)) => if x == 43 {
            Some(b)
        } else {
            None
        },
        _ => None,
    }
}

/// Decode the percent escapes of `b`.
fn percent_decode_bytes(b: &[u8]) -> (out: Vec<u8>)
    ensures
        out@ == percent_decoded(b@),
{
    let mut out: Vec<u8> = Vec::new();
    let mut i: usize = 0;
    let n = b.len();
    assert(b@.skip(0) == b@);
    while i < n
        invariant
            n == b@.len(),
            i <= n,
            out@ + percent_decoded(b@.skip(i as int)) == percent_decoded(b@),
        decreases n - i,
    {
        let ghost rest = b@.skip(i as int);
        let ghost before = out@;
        assert(rest[0] == b@[i as int]);
        if b[i] == 37 && n - i > 2 {
            assert(rest.len() > 2 && rest[1] == b@[i + 1] && rest[2] == b@[i + 2]);
            match escape_byte(b[i + 1], b[i + 2]) {
                Some(v) => {
                    out.push(v);
                    assert(rest.skip(3) == b@.skip(i + 3));
                    assert(out@ + percent_decoded(b@.skip(i + 3)) =~= before + percent_decoded(rest));
                    i = i + 3;
                    continue;
                },
                None => {},
            }
        }
        out.push(b[i]);
        assert(rest.skip(1) == b@.skip(i + 1));
        assert(out@ + percent_decoded(b@.skip(i + 1)) =~= before + percent_decoded(rest));
        i = i + 1;
    }
    assert(b@.skip(n as int).len() == 0);
    assert(out@ + percent_decoded(b@.skip(n as int)) =~= out@);
    out
}

/// The path of a `file://` URL.
fn decode_file_url(s: &Vec<char>) -> (r: Option<Vec<char>>)
    ensures
        opt_chars(r) == file_url_path(s@),
{
    let scheme: Vec<char> = vec!['f', 'i', 'l', 'e', ':', '/', '/'];
    if !has_prefix_ci(s, &scheme) {
        return None;
    }
    let mut rest: Vec<char> = Vec::new();
    let mut i: usize = 7;
    while i < s.len() && s[i] != '?' && s[i] != '#'
        invariant
            7 <= i <= s@.len(),
            rest@ + before_query(s@.skip(i as int)) == before_query(s@.skip(7)),
        decreases s@.len() - i,
    {
        let ghost tail = s@.skip(i as int);
        let ghost r0 = rest@;
        assert(tail[0] == s@[i as int]);
        assert(tail.drop_first() == s@.skip(i + 1));
        rest.push(s[i]);
        assert(rest@ + before_query(s@.skip(i + 1)) =~= r0 + before_query(tail));
        i = i + 1;
    }
    assert(before_query(s@.skip(i as int)) == Seq::<char>::empty());
    assert(rest@ =~= before_query(s@.skip(7)));
    let path: Vec<char> = if rest.len() > 0 && rest[0] == '/' {
        rest
    } else {
        let mut k: usize = 0;
        assert(rest@.skip(0) == rest@);
        while k < rest.len() && rest[k] != '/'
            invariant
                k <= rest@.len(),
                first_slash(rest@) == match first_slash(rest@.skip(k as int)) {
                    Some(j) => Some(j + k),
                    None => None::<int>,
                },
            decreases rest@.len() - k,
        {
            assert(rest@.skip(k as int).drop_first() == rest@.skip(k + 1));
            k = k + 1;
        }
        if k >= rest.len() {
            assert(rest@.skip(k as int).len() == 0);
            return None;
        }
        assert(rest@.skip(k as int)[0] == '/');
        crate::text::slice_chars(&rest, k, rest.len())
    };
    let text = string_of(&path);
    let decoded_bytes = percent_decode_bytes(text.as_str().as_bytes());
    let decoded = chars_of(lossy_text(decoded_bytes.as_slice()).as_str());
    if decoded.len() > 0 && decoded[0] == '/' {
        Some(decoded)
    } else {
        None
    }
}

/// A path from a `file://` URL, an absolute path, `~` or a path under `~/`.
fn coerce_path(s: &Vec<char>) -> (r: Option<Vec<char>>)
    ensures
        opt_chars(r) == as_path(s@),
{
    match decode_file_url(s) {
        Some(p) => return Some(p),
        None => {},
    }
    let home: Vec<char> = vec!['~', '/'];
    proof {
        if s@.len() == 1 && s@[0] == '~' {
            assert(s@ =~= seq!['~']);
        }
    }
    if (s.len() > 0 && s[0] == '/') || (s.len() == 1 && s[0] == '~') || has_prefix(s, &home) {
        assert(s@.subrange(0, s@.len() as int) == s@);
        Some(crate::text::slice_chars(s, 0, s.len()))
    } else {
        assert(s@ == seq!['~'] ==> (s@.len() == 1 && s@[0] == '~'));
        None
    }
}

/// A token without trailing punctuation.
fn trim_trailing_punct(t: &Vec<char>) -> (out: Vec<char>)
    ensures
        out@ == trim_punct(t@),
{
    let mut end = t.len();
    assert(t@.take(end as int) == t@);
    while end > 0 && (t[end - 1] == ',' || t[end - 1] == ';' || t[end - 1] == ')' || t[end - 1]
        == ']' || t[end - 1] == '>' || t[end - 1] == '"' || t[end - 1] == '\'')
        invariant
            end <= t@.len(),
            trim_punct(t@) == trim_punct(t@.take(end as int)),
        decreases end,
    {
        assert(t@.take(end as int).drop_last() == t@.take(end - 1));
        end = end - 1;
    }
    assert(trim_punct(t@.take(end as int)) == t@.take(end as int));
    crate::text::slice_chars(t, 0, end)
}

/// The token that starts at position `k`, without trailing punctuation.
fn next_token(text: &Vec<char>, k: usize) -> (out: Vec<char>)
    requires
        k <= text@.len(),
    ensures
        out@ == token_at(text@, k as int),
{
    let rest = crate::text::slice_chars(text, k, text.len());
    assert(rest@ == text@.skip(k as int));
    let toks = split_whitespace(&rest);
    if toks.len() > 0 {
        assert(toks@[0]@ == toks.deep_view()[0]);
        trim_trailing_punct(&toks[0])
    } else {
        trim_trailing_punct(&rest)
    }
}

/// A path somewhere in free text.
fn find_path_in_text(text: &Vec<char>) -> (r: Option<Vec<char>>)
    ensures
        opt_chars(r) == path_in_text(text@),
{
    let toks = split_whitespace(text);
    let ghost tv = toks.deep_view();
    let mut j: usize = toks.len();
    assert(tv.take(tv.len() as int) == tv);
    while j > 0
        invariant
            j <= toks@.len(),
            tv == toks.deep_view(),
            tv == tokens(text@),
            last_slash_token(tv) == last_slash_token(tv.take(j as int)),
        decreases j,
    {
        let t = trim_trailing_punct(&toks[j - 1]);
        assert(toks@[j - 1]@ == tv[j - 1]);
        assert(tv.take(j as int).last() == tv[j - 1]);
        assert(tv.take(j as int).drop_last() == tv.take(j - 1));
        if t.len() > 0 && t[0] == '/' {
            assert(tv.take(tv.len() as int) == tv);
            return Some(t);
        }
        j = j - 1;
    }
    assert(tv.take(0).len() == 0);
    assert(tv.take(tv.len() as int) == tv);
    let scheme: Vec<char> = vec!['f', 'i', 'l', 'e', ':', '/', '/'];
    let mut k: usize = text.len();
    while k > 0
        invariant
            k <= text@.len(),
            scheme@ == file_scheme(),
            last_slash_token(tokens(text@)) is None,
            last_url_path(text@, text@.len() as int) == last_url_path(text@, k as int),
        decreases k,
    {
        if matches_at(text, &scheme, k - 1) {
            let token = next_token(text, k - 1);
            match coerce_path(&token) {
                Some(p) => return Some(p),
                None => {},
            }
        }
        k = k - 1;
    }
    None
}

/// Check a path read from pasted text.
fn validate_path(p: Vec<char>) -> (r: Result<Vec<char>, OpenError>)
    ensures
        match r {
            Ok(v) => checked_path(p@) == Ok::<Seq<char>, OpenError>(v@),
            Err(e) => checked_path(p@) == Err::<Seq<char>, OpenError>(e),
        },
{
    if p.len() == 0 || contains_char(&p, '\0') || contains_char(&p, '\n') || contains_char(&p, '\r') {
        return Err(OpenError::InvalidPath);
    }
    let home: Vec<char> = vec!['~', '/'];
    if !(p[0] == '/' || (p.len() == 1 && p[0] == '~') || has_prefix(&p, &home)) {
        assert(p@ == seq!['~'] ==> (p@.len() == 1 && p@[0] == '~'));
        return Err(OpenError::NotAbsolute);
    }
    assert((p@.len() == 1 && p@[0] == '~') ==> p@ == seq!['~']);
    Ok(p)
}

/// Turn pasted text into a remote filesystem path: an absolute path, `~` or
/// a path under `~/`, a `file://` URL (percent escapes decoded), optionally
/// in `<...>` or quotes; otherwise the last such path found in the text.
pub fn parse_remote_ref(input: &str) -> (r: Result<String, OpenError>)
    ensures
        match r {
            Ok(p) => remote_ref(input@) == Ok::<Seq<char>, OpenError>(p@),
            Err(e) => remote_ref(input@) == Err::<Seq<char>, OpenError>(e),
        },
{
    let chars = chars_of(input);
    let trimmed = strip_wrappers(&trim_chars(&chars));
    if trimmed.len() == 0 {
        return Err(OpenError::Empty);
    }
    if looks_like_http(&trimmed) {
        return Err(OpenError::Http);
    }
    let found = match coerce_path(&trimmed) {
        Some(p) => Some(p),
        None => find_path_in_text(&trimmed),
    };
    match found {
        Some(p) => match validate_path(p) {
            Ok(v) => Ok(string_of(&v)),
            Err(e) => Err(e),
        },
        None => Err(OpenError::NotAPath),
    }
}

/// Text that starts and ends with a character that is not whitespace is its
/// own trimmed form.
proof fn lemma_trim_of_unspaced(s: Seq<char>)
    requires
        s.len() > 0,
        !is_ws(s[0]),
        !is_ws(s.last()),
    ensures
        trim(s) == s,
{
}

/// An absolute path without NUL or line breaks reads as itself, whether it is
/// pasted bare, between single quotes, between double quotes or in `<...>`:
/// the two kinds of quotes are stripped alike.
pub proof fn quoted_paths_read_as_the_path(p: Seq<char>)
    requires
        p.len() > 0,
        p[0] == '/',
        !p.contains('\0'),
        !p.contains('\n'),
        !p.contains('\r'),
    ensures
        remote_ref(seq!['\''] + p + seq!['\'']) == Ok::<Seq<char>, OpenError>(p),
        remote_ref(seq!['"'] + p + seq!['"']) == Ok::<Seq<char>, OpenError>(p),
        !is_ws(p.last()) ==> remote_ref(p) == Ok::<Seq<char>, OpenError>(p),
        !is_ws(p.last()) ==> remote_ref(seq!['<'] + p + seq!['>']) == Ok::<Seq<char>, OpenError>(p),
{
    assert(ascii_lower(p[0]) == '/');
    assert(!starts_with_ci(p, https_scheme())) by {
        assert(https_scheme()[0] == 'h');
    }
    assert(!starts_with_ci(p, http_scheme())) by {
        assert(http_scheme()[0] == 'h');
    }
    assert(!starts_with_ci(p, file_scheme())) by {
        assert(file_scheme()[0] == 'f');
    }
    assert(as_path(p) == Some(p));
    assert(checked_path(p) == Ok::<Seq<char>, OpenError>(p));
    let single = seq!['\''] + p + seq!['\''];
    let double = seq!['"'] + p + seq!['"'];
    assert(single[0] == '\'' && single.last() == '\'');
    assert(double[0] == '"' && double.last() == '"');
    assert(!is_ws('\'') && !is_ws('"') && !is_ws('/')) by {
        assert('\'' as u32 == 39);
        assert('"' as u32 == 34);
        assert('/' as u32 == 47);
    }
    lemma_trim_of_unspaced(single);
    lemma_trim_of_unspaced(double);
    assert(single.subrange(1, single.len() - 1) =~= p);
    assert(double.subrange(1, double.len() - 1) =~= p);
    assert(unwrapped(single) == p);
    assert(unwrapped(double) == p);
    if !is_ws(p.last()) {
        lemma_trim_of_unspaced(p);
        if p.len() >= 2 && p.last() == '>' {
            assert(p[0] != '<');
        }
        assert(unquoted(p) == p);
        assert(unwrapped(p) == p);
        let angled = seq!['<'] + p + seq!['>'];
        assert(angled[0] == '<' && angled.last() == '>');
        assert(!is_ws('<') && !is_ws('>')) by {
            assert('<' as u32 == 60);
            assert('>' as u32 == 62);
        }
        lemma_trim_of_unspaced(angled);
        assert(angled.subrange(1, angled.len() - 1) =~= p);
        assert(unwrapped(angled) == p);
    }
}

// ---------------------------------------------------------------------------
// Local file names
// ---------------------------------------------------------------------------

/// Whether a piece of a path names nothing (`""` or `"."`).
pub open spec fn is_empty_piece(p: Seq<char>) -> bool {
    p.len() == 0 || p == seq!['.']
}

/// The last named piece of a `/`-separated path.
pub open spec fn last_piece(pieces: Seq<Seq<char>>) -> Option<Seq<char>>
    decreases pieces.len(),
{
    if pieces.len() == 0 {
        None
    } else if is_empty_piece(pieces.last()) {
        last_piece(pieces.drop_last())
    } else {
        Some(pieces.last())
    }
}

/// The file name of a path as `Path::file_name` gives it: its last component,
/// unless that is `..` (or there is none).
pub open spec fn file_name(path: Seq<char>) -> Option<Seq<char>> {
    match last_piece(crate::text::segments(path, '/')) {
        Some(p) => if p == seq!['.', '.'] {
            None
        } else {
            Some(p)
        },
        None => None,
    }
}

/// A character kept in a local file name.
pub open spec fn is_name_safe(c: char) -> bool {
    ('a' <= c && c <= 'z') || ('A' <= c && c <= 'Z') || ('0' <= c && c <= '9') || c == '.' || c
        == '-' || c == '_'
}

/// The local name of a downloaded file: the remote file name with unsafe
/// characters replaced by `_`, or `file` when that leaves nothing usable.
pub open spec fn basename_text(remote: Seq<char>) -> Seq<char> {
    let base = match file_name(remote) {
        Some(n) => n,
        None => "file"@,
    };
    let safe = base.map_values(|c: char| if is_name_safe(c) { c } else { '_' });
    if safe.len() == 0 || safe == seq!['.'] || safe == seq!['.', '.'] {
        "file"@
    } else {
        safe
    }
}

/// The local name of a downloaded file.
pub fn local_basename(remote_path: &str) -> (name: String)
    ensures
        name@ == basename_text(remote_path@),
{
    let chars = chars_of(remote_path);
    let pieces = crate::text::split_at_char(&chars, '/');
    let ghost pv = pieces.deep_view();
    let mut j: usize = pieces.len();
    assert(pv.take(pv.len() as int) == pv);
    while j > 0 && (pieces[j - 1].len() == 0 || (pieces[j - 1].len() == 1 && pieces[j - 1][0]
        == '.'))
        invariant
            j <= pieces@.len(),
            pv == pieces.deep_view(),
            last_piece(pv) == last_piece(pv.take(j as int)),
        decreases j,
    {
        assert(pieces@[j - 1]@ == pv[j - 1]);
        assert(pv.take(j as int).last() == pv[j - 1]);
        proof {
            if pv[j - 1].len() == 1 && pv[j - 1][0] == '.' {
                assert(pv[j - 1] =~= seq!['.']);
            }
        }
        assert(pv.take(j as int).drop_last() == pv.take(j - 1));
        j = j - 1;
    }
    assert(pv.take(pv.len() as int) == pv);
    assert(pv == crate::text::segments(remote_path@, '/'));
    let base: Vec<char> = if j == 0 {
        assert(pv.take(0).len() == 0);
        assert(last_piece(pv) is None);
        assert(file_name(remote_path@) is None);
        chars_of("file")
    } else {
        let piece = &pieces[j - 1];
        assert(piece@ == pv[j - 1]);
        assert(pv.take(j as int).last() == pv[j - 1]);
        assert(pv[j - 1] == seq!['.'] ==> (pv[j - 1].len() == 1 && pv[j - 1][0] == '.'));
        assert(!is_empty_piece(pv[j - 1]));
        assert(last_piece(pv.take(j as int)) == Some(pv[j - 1]));
        assert(last_piece(pv) == Some(pv[j - 1]));
        if piece.len() == 2 && piece[0] == '.' && piece[1] == '.' {
            assert(piece@ =~= seq!['.', '.']);
            assert(file_name(remote_path@) is None);
            chars_of("file")
        } else {
            assert(piece@ != seq!['.', '.']) by {
                if piece@ == seq!['.', '.'] {
                    assert(piece@.len() == 2 && piece@[0] == '.' && piece@[1] == '.');
                }
            }
            assert(file_name(remote_path@) == Some(piece@));
            assert(piece@.subrange(0, piece@.len() as int) == piece@);
            crate::text::slice_chars(piece, 0, piece.len())
        }
    };
    assert(base@ == match file_name(remote_path@) {
        Some(n) => n,
        None => "file"@,
    });
    let mut safe: Vec<char> = Vec::new();
    let mut i: usize = 0;
    while i < base.len()
        invariant
            i <= base@.len(),
            safe@ == base@.take(i as int).map_values(|c: char| if is_name_safe(c) { c } else { '_' }),
        decreases base@.len() - i,
    {
        let c = base[i];
        let ok = ('a' <= c && c <= 'z') || ('A' <= c && c <= 'Z') || ('0' <= c && c <= '9') || c
            == '.' || c == '-' || c == '_';
        safe.push(if ok { c } else { '_' });
        assert(base@.take(i + 1).map_values(|c: char| if is_name_safe(c) { c } else { '_' })
            =~= base@.take(i as int).map_values(|c: char| if is_name_safe(c) { c } else { '_' }).push(
            if is_name_safe(c) { c } else { '_' },
        ));
        i = i + 1;
    }
    assert(base@.take(base@.len() as int) == base@);
    let n = safe.len();
    if n == 0 || (n == 1 && safe[0] == '.') || (n == 2 && safe[0] == '.' && safe[1] == '.') {
        return "file".to_owned();
    }
    assert(safe@ != seq!['.']) by {
        if safe@ == seq!['.'] {
            assert(safe@.len() == 1 && safe@[0] == '.');
        }
    }
    assert(safe@ != seq!['.', '.']) by {
        if safe@ == seq!['.', '.'] {
            assert(safe@.len() == 2 && safe@[0] == '.' && safe@[1] == '.');
        }
    }
    string_of(&safe)
}

/// The local file name of a download made at `stamp`.
pub fn open_file_name(stamp: u128, remote_path: &str) -> (name: String)
    ensures
        name@ == "open-"@ + decimal(stamp as nat) + "-"@ + basename_text(remote_path@),
{
    let mut out = chars_of("open-");
    push_decimal(&mut out, stamp);
    push_str(&mut out, "-");
    let base = local_basename(remote_path);
    push_str(&mut out, base.as_str());
    string_of(&out)
}

// ---------------------------------------------------------------------------
// Download and local opener
// ---------------------------------------------------------------------------

/// The remote script that prints the file at `remote` (expanding `~`),
/// failing with a message when it is missing, not a regular file, or not
/// readable.
pub open spec fn download_script_text(remote: Seq<char>) -> Seq<char> {
    "umask 077\npath="@ + shell_quoted(remote)
        + "\ncase \"$path\" in\n~/*) path=\"$HOME/${path#~/}\" ;;\n~) path=\"$HOME\" ;;\nesac\nif [ ! -e \"$path\" ]; then printf '%s\\n' \"not found: $path\" >&2; exit 1; fi\nif [ ! -f \"$path\" ]; then printf '%s\\n' \"not a regular file: $path\" >&2; exit 1; fi\nif [ ! -r \"$path\" ]; then printf '%s\\n' \"permission denied: $path\" >&2; exit 1; fi\nexec cat -- \"$path\""@
}

/// The remote command line that downloads `remote_path`.
pub fn download_command(remote_path: &str) -> (command: String)
    ensures
        command@ == login_shell_text(download_script_text(remote_path@)),
{
    let mut script = "umask 077\npath=".to_owned();
    let q = quote(remote_path);
    script.append(q.as_str());
    script.append(
        "\ncase \"$path\" in\n~/*) path=\"$HOME/${path#~/}\" ;;\n~) path=\"$HOME\" ;;\nesac\nif [ ! -e \"$path\" ]; then printf '%s\\n' \"not found: $path\" >&2; exit 1; fi\nif [ ! -f \"$path\" ]; then printf '%s\\n' \"not a regular file: $path\" >&2; exit 1; fi\nif [ ! -r \"$path\" ]; then printf '%s\\n' \"permission denied: $path\" >&2; exit 1; fi\nexec cat -- \"$path\"",
    );
    login_shell_command(script.as_str())
}

/// Whether a download that has `received` bytes and reads `more` goes past
/// the size limit.
pub fn download_too_large(received: u64, more: u64) -> (b: bool)
    ensures
        b == (received + more > MAX_DOWNLOAD_BYTES),
{
    received > MAX_DOWNLOAD_BYTES || more > MAX_DOWNLOAD_BYTES - received
}

/// A program that opens a file with the desktop's default application.
#[derive(Clone, Copy, Debug, PartialEq, Eq, Structural)]
pub enum Opener {
    /// `xdg-open <file>`.
    XdgOpen,
    /// `gio open <file>`.
    Gio,
    /// `kde-open <file>`.
    KdeOpen,
}

/// The opener to use: `xdg-open`, else `gio`, else `kde-open`, whichever is
/// installed first.
pub fn choose_opener(has_xdg_open: bool, has_gio: bool, has_kde_open: bool) -> (o: Option<Opener>)
    ensures
        o == (if has_xdg_open {
            Some(Opener::XdgOpen)
        } else if has_gio {
            Some(Opener::Gio)
        } else if has_kde_open {
            Some(Opener::KdeOpen)
        } else {
            None
        }),
{
    if has_xdg_open {
        Some(Opener::XdgOpen)
    } else if has_gio {
        Some(Opener::Gio)
    } else if has_kde_open {
        Some(Opener::KdeOpen)
    } else {
        None
    }
}

/// The message when `open` has no host to fetch from.
pub open spec fn open_no_host_text() -> Seq<char> {
    "no host: pass --destination or start autotun first"@
}

/// Where `open` fetches from: the host given, else the last session's, and
/// the last session's control socket when it belongs to that host.
pub fn open_target(destination: Option<String>, last: Option<LastSession>) -> (r: Result<(String, Option<String>), String>)
    ensures
        match r {
            Ok((h, s)) => clip_route(
                match destination {
                    Some(d) => Some(d@),
                    None => None,
                },
                match last {
                    Some(l) => Some((l.destination@, l.socket@)),
                    None => None,
                },
            ) == Ok::<(Seq<char>, Option<Seq<char>>), Seq<char>>((h@, match s {
                Some(x) => Some(x@),
                None => None,
            })),
            Err(m) => clip_route(
                match destination {
                    Some(d) => Some(d@),
                    None => None,
                },
                match last {
                    Some(l) => Some((l.destination@, l.socket@)),
                    None => None,
                },
            ) is Err && m@ == open_no_host_text(),
        },
{
    match clip_target(destination, last) {
        Ok(t) => Ok(t),
        Err(_) => Err("no host: pass --destination or start autotun first".to_owned()),
    }
}

} // verus!
