//! Shell start-up files: a snippet is appended once.
use vstd::prelude::*;
use crate::text::{chars_of, concat, contains_seq, find_seq, occurs_at};

verus! {

/// What appending `snippet` once adds to a file that holds `current`:
/// nothing where the snippet is already there, else the snippet on a line
/// of its own (after a newline that ends an unfinished last line).
pub open spec fn appended_text(current: Seq<char>, snippet: Seq<char>) -> Option<Seq<char>> {
    if contains_seq(current, snippet) {
        None
    } else if current.len() > 0 && current.last() != '\n' {
        Some("\n"@ + snippet + "\n"@)
    } else {
        Some(snippet + "\n"@)
    }
}

/// The text to append to a start-up file that holds `current`, if any.
pub fn append_once(current: &str, snippet: &str) -> (r: Option<String>)
    ensures
        match r {
            Some(a) => appended_text(current@, snippet@) == Some(a@),
            None => appended_text(current@, snippet@) is None,
        },
{
    let c = chars_of(current);
    let s = chars_of(snippet);
    if find_seq(&c, &s).is_some() {
        return None;
    }
    proof {
        reveal_strlit("\n");
    }
    if c.len() > 0 && c[c.len() - 1] != '\n' {
        let mut r = concat("\n", snippet);
        r.append("\n");
        Some(r)
    } else {
        Some(concat(snippet, "\n"))
    }
}

/// Appending once is idempotent: after the text is appended, the snippet
/// is there, and a second run appends nothing.
pub proof fn lemma_append_once_idempotent(current: Seq<char>, snippet: Seq<char>)
    ensures
        match appended_text(current, snippet) {
            Some(a) => appended_text(current + a, snippet) is None,
            None => true,
        },
{
    reveal_strlit("\n");
    match appended_text(current, snippet) {
        Some(a) => {
            let whole = current + a;
            let at: int = if current.len() > 0 && current.last() != '\n' { current.len() as int + 1 } else { current.len() as int };
            assert(whole.subrange(at, at + snippet.len()) =~= snippet);
            assert(occurs_at(whole, snippet, at));
        },
        None => {},
    }
}

} // verus!
