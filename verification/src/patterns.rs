//! Regular expressions, matched by the `regex` crate, and the grammars that
//! the fixed patterns of the configuration rules describe.
use vstd::prelude::*;
use crate::text::is_alnum;

verus! {

/// Definition names: alphanumeric at both ends, `._-` allowed inside.
pub const DEFINITION_NAME_PATTERN: &'static str = r"^[A-Za-z0-9]([A-Za-z0-9._-]*[A-Za-z0-9])?$";

/// Keyring file names: safe characters ending in `.asc` or `.gpg`.
pub const KEY_FILE_PATTERN: &'static str = r"^[A-Za-z0-9._-]+\.(asc|gpg)$";

/// Terminal application names: alphanumeric first, then `._+-` allowed.
pub const TERMINAL_PATTERN: &'static str = r"^[A-Za-z0-9][A-Za-z0-9._+-]*$";

pub open spec fn name_char(c: char) -> bool {
    is_alnum(c) || c == '.' || c == '_' || c == '-'
}

/// The language of `DEFINITION_NAME_PATTERN`.
pub open spec fn definition_grammar(s: Seq<char>) -> bool {
    &&& s.len() > 0
    &&& is_alnum(s[0])
    &&& is_alnum(s.last())
    &&& forall|i: int| 0 <= i < s.len() ==> name_char(#[trigger] s[i])
}

/// The language of `KEY_FILE_PATTERN`.
pub open spec fn key_file_grammar(s: Seq<char>) -> bool {
    &&& s.len() >= 5
    &&& (s.skip(s.len() - 4) == ".asc"@ || s.skip(s.len() - 4) == ".gpg"@)
    &&& forall|i: int| 0 <= i < s.len() ==> name_char(#[trigger] s[i])
}

/// The language of `TERMINAL_PATTERN`.
pub open spec fn terminal_grammar(s: Seq<char>) -> bool {
    &&& s.len() > 0
    &&& is_alnum(s[0])
    &&& forall|i: int| 0 <= i < s.len() ==> (name_char(#[trigger] s[i]) || s[i] == '+')
}

/// Whether `pattern` compiles as a `regex::Regex`.
pub uninterp spec fn regex_compiles(pattern: Seq<char>) -> bool;

/// Whether the compiled `pattern` matches somewhere in `text` (`Regex::is_match`).
pub uninterp spec fn regex_matches(pattern: Seq<char>, text: Seq<char>) -> bool;

/// Compiles `pattern` with `regex::Regex::new` and tests `text` with
/// `Regex::is_match`: `None` where the pattern does not compile. The
/// contract names both results; for the three fixed patterns of the
/// configuration rules it states that they compile and what they match, as
/// the regex syntax documentation reads them (anchored with `^` and `$`,
/// ASCII character classes).
#[verifier::external_body]
pub(crate) fn regex_match(pattern: &str, text: &str) -> (r: Option<bool>)
    ensures
        r is Some <==> regex_compiles(pattern@),
        r matches Some(b) ==> b == regex_matches(pattern@, text@),
        pattern@ == DEFINITION_NAME_PATTERN@ ==> r == Some(definition_grammar(text@)),
        pattern@ == KEY_FILE_PATTERN@ ==> r == Some(key_file_grammar(text@)),
        pattern@ == TERMINAL_PATTERN@ ==> r == Some(terminal_grammar(text@)),
{
    match regex::Regex::new(pattern) {
        Ok(re) => Some(re.is_match(text)),
        Err(_) => None,
    }
}

} // verus!
