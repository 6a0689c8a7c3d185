//! Shell quoting and word splitting, as `shell_words` does them.

use vstd::prelude::*;

use crate::text::chars_of;

verus! {

/// Declares `shell_words::ParseError` (an unmatched quote) to Verus.
#[verifier::external_type_specification]
#[verifier::external_body]
pub struct ExShellParseError(shell_words::ParseError);

/// A character that needs quoting in a shell word.
pub open spec fn is_shell_special(c: char) -> bool {
    c == '|' || c == '&' || c == ';' || c == '<' || c == '>' || c == '(' || c == ')' || c == '$'
        || c == '`' || c == '\\' || c == '"' || c == ' ' || c == '\t' || c == '*' || c == '?' || c
        == '[' || c == '#' || c == '~' || c == '=' || c == '%' || c == '\n' || c == '\''
}

/// The characters of `s` inside single quotes: each `'` becomes `'\''`.
pub open spec fn single_quote_body(s: Seq<char>) -> Seq<char>
    decreases s.len(),
{
    if s.len() == 0 {
        seq![]
    } else {
        single_quote_body(s.drop_last()) + if s.last() == '\'' {
            seq!['\'', '\\', '\'', '\'']
        } else {
            seq![s.last()]
        }
    }
}

/// What `shell_words::quote` returns: a non-empty word without special
/// characters as it is; anything else in single quotes, with each `'`
/// written `'\''`.
pub open spec fn shell_quoted(s: Seq<char>) -> Seq<char> {
    if s.len() > 0 && (forall|i: int| 0 <= i < s.len() ==> !is_shell_special(#[trigger] s[i])) {
        s
    } else {
        seq!['\''] + single_quote_body(s) + seq!['\'']
    }
}

/// The views of a list of strings.
pub open spec fn string_views(v: Seq<String>) -> Seq<Seq<char>> {
    v.map_values(|s: String| s@)
}

/// The words `shell_words::split` finds in `s`, or none when a quote is not
/// closed.
pub uninterp spec fn shell_words_split(s: Seq<char>) -> Option<Seq<Seq<char>>>;

/// `shell_words::quote`: the word quoted so that a POSIX shell reads it back
/// literally. The contract states the quoting rule of the crate's source
/// (no quotes for a non-empty word of plain characters; single quotes
/// otherwise, with `'` written as `'\''`).
#[verifier::external_body]
pub(crate) fn quote(s: &str) -> (q: String)
    ensures
        q@ == shell_quoted(s@),
{
    shell_words::quote(s).into_owned()
}

/// `shell_words::split`: the words of a command line, with quotes and
/// backslashes removed. The contract only names the result
/// (`shell_words_split`), a function of the text alone; an error means an
/// unclosed quote.
#[verifier::external_body]
pub(crate) fn split(s: &str) -> (r: Result<Vec<String>, shell_words::ParseError>)
    ensures
        match r {
            Ok(words) => shell_words_split(s@) == Some(string_views(words@)),
            Err(_) => shell_words_split(s@) is None,
        },
{
    shell_words::split(s)
}

/// The command `sh -lc <script>` as one remote command line.
pub open spec fn login_shell_text(script: Seq<char>) -> Seq<char> {
    "sh -lc "@ + shell_quoted(script)
}

/// The remote command that runs `script` in a login shell.
pub fn login_shell_command(script: &str) -> (command: String)
    ensures
        command@ == login_shell_text(script@),
{
    let quoted = quote(script);
    let mut out = "sh -lc ".to_owned();
    out.append(quoted.as_str());
    out
}

} // verus!
