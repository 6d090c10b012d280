//! A command that an operation asks the host to run.
use vstd::prelude::*;
use crate::text::{concat, concat3, string_of, string_views, utf8_text, chars_of};

verus! {

/// A program run with arguments; `label` names the step in error reports,
/// and `check` says whether a failure stops the operation (where it is
/// false, the outcome is ignored).
#[derive(Debug)]
pub struct Command {
    pub label: String,
    pub program: String,
    pub args: Vec<String>,
    pub check: bool,
}

pub struct CommandView {
    pub label: Seq<char>,
    pub program: Seq<char>,
    pub args: Seq<Seq<char>>,
    pub check: bool,
}

impl View for Command {
    type V = CommandView;

    open spec fn view(&self) -> CommandView {
        CommandView { label: self.label@, program: self.program@, args: string_views(self.args@), check: self.check }
    }
}

pub open spec fn command_views(cs: Seq<Command>) -> Seq<CommandView> {
    cs.map_values(|c: Command| c@)
}

/// A command whose failure stops the operation.
pub fn checked(label: &str, program: &str, args: Vec<String>) -> (r: Command)
    ensures
        r@ == (CommandView { label: label@, program: program@, args: string_views(args@), check: true }),
{
    Command { label: label.to_owned(), program: program.to_owned(), args, check: true }
}

/// A command whose outcome is ignored.
pub fn unchecked(label: &str, program: &str, args: Vec<String>) -> (r: Command)
    ensures
        r@ == (CommandView { label: label@, program: program@, args: string_views(args@), check: false }),
{
    Command { label: label.to_owned(), program: program.to_owned(), args, check: false }
}

/// The words, owned.
pub fn words(ws: &[&str]) -> (r: Vec<String>)
    ensures
        r@.len() == ws@.len(),
        forall|i: int| 0 <= i < ws@.len() ==> #[trigger] r@[i]@ == ws@[i]@,
{
    let mut r: Vec<String> = Vec::new();
    let mut i: usize = 0;
    while i < ws.len()
        invariant
            i <= ws@.len(),
            r@.len() == i,
            forall|k: int| 0 <= k < i ==> #[trigger] r@[k]@ == ws@[k]@,
        decreases ws@.len() - i,
    {
        r.push(ws[i].to_owned());
        i += 1;
    }
    r
}

/// The options that every download with `curl` uses: follow redirects,
/// fail on HTTP errors, stay quiet but show errors, retry three times.
pub open spec fn curl_options() -> Seq<Seq<char>> {
    seq!["--location"@, "--fail"@, "--silent"@, "--show-error"@, "--retry"@, "3"@, "--retry-all-errors"@]
}

/// A `curl` download of `url` with further arguments; the URL comes after
/// `--` so that a leading hyphen cannot make it an option.
pub open spec fn curl_view(label: Seq<char>, url: Seq<char>, args: Seq<Seq<char>>) -> CommandView {
    CommandView { label, program: "curl"@, args: curl_options() + args + seq!["--"@, url], check: true }
}

pub fn curl(label: &str, url: &str, args: Vec<String>) -> (r: Command)
    ensures
        r@ == curl_view(label@, url@, string_views(args@)),
{
    let mut all = words(&["--location", "--fail", "--silent", "--show-error", "--retry", "3", "--retry-all-errors"]);
    let ghost head = string_views(all@);
    assert(head =~= curl_options());
    let mut i: usize = 0;
    while i < args.len()
        invariant
            i <= args@.len(),
            string_views(all@) == head + string_views(args@).take(i as int),
        decreases args@.len() - i,
    {
        let ghost before = string_views(all@);
        all.push(args[i].clone());
        i += 1;
        assert(string_views(all@) =~= before.push(args@[i - 1]@));
        assert(string_views(all@) =~= head + string_views(args@).take(i as int));
    }
    assert(string_views(args@).take(i as int) =~= string_views(args@));
    let ghost middle = string_views(all@);
    all.push("--".to_owned());
    all.push(url.to_owned());
    assert(string_views(all@) =~= middle + seq!["--"@, url@]);
    checked(label, "curl", all)
}


/// The check that a CLI can be used: `<program> --version`.
pub fn cli_check(label: &str, program: &str) -> (r: Command)
    ensures
        r@ == (CommandView { label: label@ + " CLI version check"@, program: program@, args: seq!["--version"@], check: true }),
{
    let r = checked(concat(label, " CLI version check").as_str(), program, words(&["--version"]));
    assert(r@.args =~= seq!["--version"@]);
    r
}

/// The error where the CLI check fails.
pub fn cli_missing(label: &str, program: &str) -> (r: String)
    ensures
        r@ == label@ + " integration requires an existing usable "@ + program@ + " CLI"@,
{
    let mut m = concat3(label, " integration requires an existing usable ", program);
    m.append(" CLI");
    m
}

/// Output that must be one record: UTF-8, one final newline at most, not
/// empty, and no other newline.
pub open spec fn stdout_line_result(bytes: Seq<u8>, command: Seq<char>) -> Result<Seq<char>, Seq<char>> {
    if !vstd::utf8::valid_utf8(bytes) {
        Err(command + " returned non-UTF-8 output"@)
    } else {
        let text = vstd::utf8::decode_utf8(bytes);
        let record = if text.len() > 0 && text.last() == '\n' { text.drop_last() } else { text };
        if record.len() == 0 || record.contains('\n') {
            Err(command + " returned malformed record output"@)
        } else {
            Ok(record)
        }
    }
}

pub fn stdout_line(bytes: &[u8], command: &str) -> (r: Result<String, String>)
    ensures
        match r {
            Ok(l) => stdout_line_result(bytes@, command@) == Ok::<Seq<char>, Seq<char>>(l@),
            Err(e) => stdout_line_result(bytes@, command@) == Err::<Seq<char>, Seq<char>>(e@),
        },
{
    let text = match utf8_text(bytes) {
        None => {
            return Err(concat(command, " returned non-UTF-8 output"));
        },
        Some(t) => chars_of(t.as_str()),
    };
    let n = text.len();
    let end = if n > 0 && text[n - 1] == '\n' { n - 1 } else { n };
    let mut k: usize = 0;
    while k < end
        invariant
            n == text@.len(),
            end as int == (if n > 0 && text@[n - 1] == '\n' { n - 1 } else { n as int }),
            text@ == vstd::utf8::decode_utf8(bytes@),
            vstd::utf8::valid_utf8(bytes@),
            k <= end,
            forall|j: int| 0 <= j < k ==> text@[j] != '\n',
        decreases end - k,
    {
        if text[k] == '\n' {
            proof {
                let record = text@.subrange(0, end as int);
                assert(record[k as int] == '\n');
                assert(record.contains('\n'));
                if end < n {
                    assert(text@.last() == text@[n - 1]);
                    assert(record =~= text@.drop_last());
                } else {
                    assert(record =~= text@);
                }
            }
            return Err(concat(command, " returned malformed record output"));
        }
        k += 1;
    }
    let mut record: Vec<char> = Vec::new();
    let mut i: usize = 0;
    while i < end
        invariant
            n == text@.len(),
            end as int == (if n > 0 && text@[n - 1] == '\n' { n - 1 } else { n as int }),
            i <= end,
            record@ =~= text@.subrange(0, i as int),
        decreases end - i,
    {
        record.push(text[i]);
        i += 1;
    }
    proof {
        if end < n {
            assert(text@.last() == text@[n - 1]);
            assert(record@ =~= text@.drop_last());
        } else {
            assert(record@ =~= text@);
        }
        if record@.contains('\n') {
            let j = choose|j: int| 0 <= j < record@.len() && record@[j] == '\n';
            assert(text@[j] == '\n');
        }
    }
    if end == 0 {
        return Err(concat(command, " returned malformed record output"));
    }
    Ok(string_of(&record))
}

} // verus!
