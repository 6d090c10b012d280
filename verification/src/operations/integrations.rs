//! Docker logging and VS Code extensions: what may be configured and the
//! state that `code --list-extensions` reports.
use vstd::prelude::*;
use crate::operations::command::{checked, command_views, words, Command, CommandView};
use crate::json::{member, Json};
use crate::text::{
    alnum, all_chars, chars_of, concat, concat3, debug_str, debug_text, digit, eq_chars, eq_str,
    first_index, first_occurrence, has_prefix, is_alnum, is_digit, lines, lines_of, lowercase_chars,
    same_outcome, slice_to_vec, split, split_chars, string_of, string_views, to_lower, utf8_text,
    views,
};

verus! {

/// A Docker log size: a positive number followed by `k`, `m` or `g`.
pub open spec fn valid_max_size(value: Seq<char>) -> bool {
    value.len() > 0 && (value.last() == 'k' || value.last() == 'm' || value.last() == 'g') && {
        let number = value.drop_last();
        number.len() > 0 && (forall|k: int| 0 <= k < number.len() ==> is_digit(#[trigger] number[k]))
            && !(forall|k: int| 0 <= k < number.len() ==> #[trigger] number[k] == '0')
    }
}

pub const MAX_SIZE_ERROR: &'static str = "Docker max size must be a positive integer followed by k, m, or g";

pub fn validate_max_size(value: Option<&str>) -> (r: Result<(), String>)
    ensures
        r is Ok <==> (value matches Some(v) ==> valid_max_size(v@)),
        r matches Err(e) ==> e@ == MAX_SIZE_ERROR@,
{
    let v = match value {
        None => {
            return Ok(());
        },
        Some(v) => chars_of(v),
    };
    if v.len() == 0 || !(v[v.len() - 1] == 'k' || v[v.len() - 1] == 'm' || v[v.len() - 1] == 'g') {
        return Err(MAX_SIZE_ERROR.to_owned());
    }
    let m = v.len() - 1;
    let number = slice_to_vec(&v, 0, m);
    assert(number@ =~= v@.drop_last());
    let d = |c: char| -> (b: bool)
        ensures
            b == is_digit(c),
        { digit(c) };
    let z = |c: char| -> (b: bool)
        ensures
            b == (c == '0'),
        { c == '0' };
    if number.len() == 0 || !all_chars(&number, d, Ghost(|c: char| is_digit(c))) || all_chars(
        &number,
        z,
        Ghost(|c: char| c == '0'),
    ) {
        return Err(MAX_SIZE_ERROR.to_owned());
    }
    Ok(())
}

/// Switching the Docker daemon to the local log driver, with an optional size limit.
#[derive(Debug)]
pub struct DockerLocalLogOperation {
    max_size: Option<String>,
}

impl DockerLocalLogOperation {
    pub fn new(max_size: Option<String>) -> (r: Result<Self, String>)
        ensures
            match r {
                Ok(op) => (max_size matches Some(v) ==> valid_max_size(v@)) && op.max_size_view() == match max_size {
                    Some(v) => Some(v@),
                    None => None::<Seq<char>>,
                },
                Err(e) => (max_size matches Some(v) && !valid_max_size(v@)) && e@ == MAX_SIZE_ERROR@,
            },
    {
        let checked = match &max_size {
            Some(v) => validate_max_size(Some(v.as_str())),
            None => validate_max_size(None),
        };
        checked?;
        Ok(DockerLocalLogOperation { max_size })
    }

    pub closed spec fn max_size_view(&self) -> Option<Seq<char>> {
        match self.max_size {
            Some(v) => Some(v@),
            None => None,
        }
    }

    /// The words that describe the operation in a plan listing.
    pub fn display_args(&self) -> (r: Vec<String>)
        ensures
            string_views(r@) == seq!["docker-local-log"@] + match self.max_size_view() {
                Some(v) => seq![v],
                None => Seq::empty(),
            },
    {
        let mut r = vec!["docker-local-log".to_owned()];
        if let Some(v) = &self.max_size {
            r.push(v.clone());
            assert(string_views(r@) =~= seq!["docker-local-log"@, v@]);
        } else {
            assert(string_views(r@) =~= seq!["docker-local-log"@]);
        }
        r
    }
}

/// A publisher or extension name: alphanumeric first, then letters, digits and `-`.
pub open spec fn valid_identifier(s: Seq<char>) -> bool {
    s.len() > 0 && is_alnum(s[0]) && forall|k: int| 0 <= k < s.len() ==> (is_alnum(#[trigger] s[k]) || s[k] == '-')
}

/// The case-folded form of a `publisher.extension` identifier, if it is one.
pub open spec fn canonical_extension_of(value: Seq<char>) -> Option<Seq<char>> {
    let parts = split(value, '.');
    if parts.len() == 2 && valid_identifier(parts[0]) && valid_identifier(parts[1]) {
        Some(to_lower(value))
    } else {
        None
    }
}

fn valid_identifier_exec(s: &[char]) -> (r: bool)
    ensures
        r == valid_identifier(s@),
{
    if s.len() == 0 || !alnum(s[0]) {
        return false;
    }
    let f = |c: char| -> (b: bool)
        ensures
            b == (is_alnum(c) || c == '-'),
        { alnum(c) || c == '-' };
    all_chars(s, f, Ghost(|c: char| is_alnum(c) || c == '-'))
}

pub fn canonical_extension(value: &[char]) -> (r: Option<Vec<char>>)
    ensures
        match r {
            Some(v) => canonical_extension_of(value@) == Some(v@),
            None => canonical_extension_of(value@) is None,
        },
{
    let parts = split_chars(value, '.');
    if parts.len() != 2 {
        return None;
    }
    assert(views(parts@)[0] == parts@[0]@);
    assert(views(parts@)[1] == parts@[1]@);
    if valid_identifier_exec(&parts[0]) && valid_identifier_exec(&parts[1]) {
        Some(lowercase_chars(value))
    } else {
        None
    }
}

pub const NO_EXTENSIONS_ERROR: &'static str = "VS Code extension operation requires at least one extension";

/// The case-folded extensions from the `k`th on; an invalid identifier or
/// one that folds to an earlier one is refused.
pub open spec fn extensions_from(es: Seq<Seq<char>>, k: int) -> Result<Seq<Seq<char>>, Seq<char>>
    decreases es.len() - k,
{
    if k < 0 || k >= es.len() {
        Ok(Seq::empty())
    } else {
        match canonical_extension_of(es[k]) {
            None => Err("invalid VS Code publisher.extension identifier: "@ + debug_text(es[k])),
            Some(c) => if exists|j: int| 0 <= j < k && #[trigger] canonical_extension_of(es[j]) == Some(c) {
                Err("duplicate VS Code extension identifier: "@ + debug_text(es[k]))
            } else {
                match extensions_from(es, k + 1) {
                    Err(e) => Err(e),
                    Ok(rest) => Ok(seq![c] + rest),
                }
            },
        }
    }
}

/// The configured extensions, case-folded, in order.
pub open spec fn extensions_result(es: Seq<Seq<char>>) -> Result<Seq<Seq<char>>, Seq<char>> {
    if es.len() == 0 {
        Err(NO_EXTENSIONS_ERROR@)
    } else {
        extensions_from(es, 0)
    }
}

proof fn lemma_extensions_from(es: Seq<Seq<char>>, k: int, i: int, done: Seq<Seq<char>>)
    requires
        0 <= k <= i <= es.len(),
        done.len() == i,
        forall|j: int| 0 <= j < i ==> canonical_extension_of(es[j]) == Some(#[trigger] done[j]),
        forall|j: int, m: int| 0 <= j < m < i ==> done[j] != done[m],
    ensures
        extensions_from(es, k) == match extensions_from(es, i) {
            Err(e) => Err(e),
            Ok(rest) => Ok(done.subrange(k, i) + rest),
        },
    decreases i - k,
{
    if k == i {
        assert(done.subrange(k, i) =~= Seq::<Seq<char>>::empty());
        match extensions_from(es, i) {
            Err(e) => {},
            Ok(rest) => {
                assert(done.subrange(k, i) + rest =~= rest);
            },
        }
    } else {
        lemma_extensions_from(es, k + 1, i, done);
        assert(canonical_extension_of(es[k]) == Some(done[k]));
        assert(!exists|j: int| 0 <= j < k && #[trigger] canonical_extension_of(es[j]) == Some(done[k])) by {
            if exists|j: int| 0 <= j < k && #[trigger] canonical_extension_of(es[j]) == Some(done[k]) {
                let j = choose|j: int| 0 <= j < k && #[trigger] canonical_extension_of(es[j]) == Some(done[k]);
                assert(canonical_extension_of(es[j]) == Some(done[j]));
            }
        }
        match extensions_from(es, i) {
            Err(e) => {},
            Ok(rest) => {
                assert(seq![done[k]] + (done.subrange(k + 1, i) + rest) =~= done.subrange(k, i) + rest);
            },
        }
    }
}

fn canonical_extensions(extensions: &Vec<String>) -> (r: Result<Vec<String>, String>)
    ensures
        match r {
            Ok(cs) => extensions_result(string_views(extensions@)) == Ok::<Seq<Seq<char>>, Seq<char>>(string_views(cs@)),
            Err(e) => extensions_result(string_views(extensions@)) == Err::<Seq<Seq<char>>, Seq<char>>(e@),
        },
{
    if extensions.len() == 0 {
        return Err(NO_EXTENSIONS_ERROR.to_owned());
    }
    let ghost es = string_views(extensions@);
    let mut done: Vec<Vec<char>> = Vec::new();
    let mut i: usize = 0;
    while i < extensions.len()
        invariant
            i <= es.len(),
            es == string_views(extensions@),
            es.len() > 0,
            done@.len() == i,
            forall|j: int| 0 <= j < i ==> canonical_extension_of(es[j]) == Some(#[trigger] views(done@)[j]),
            forall|j: int, k: int| 0 <= j < k < i ==> views(done@)[j] != views(done@)[k],
        decreases es.len() - i,
    {
        proof {
            lemma_extensions_from(es, i as int, i as int, views(done@));
        }
        let e = chars_of(extensions[i].as_str());
        assert(e@ == es[i as int]);
        let c = match canonical_extension(&e) {
            None => {
                proof {
                    lemma_extensions_from(es, 0, i as int, views(done@));
                }
                return Err(concat("invalid VS Code publisher.extension identifier: ", debug_str(extensions[i].as_str()).as_str()));
            },
            Some(c) => c,
        };
        let mut j: usize = 0;
        while j < done.len()
            invariant
                j <= done@.len(),
                done@.len() == i,
                i < es.len(),
                es == string_views(extensions@),
                canonical_extension_of(es[i as int]) == Some(c@),
                forall|m: int| 0 <= m < i ==> canonical_extension_of(es[m]) == Some(#[trigger] views(done@)[m]),
                forall|m: int, k: int| 0 <= m < k < i ==> views(done@)[m] != views(done@)[k],
                forall|m: int| 0 <= m < j ==> views(done@)[m] != c@,
            decreases done@.len() - j,
        {
            if eq_chars(&done[j], &c) {
                proof {
                    assert(views(done@)[j as int] == done@[j as int]@);
                    assert(canonical_extension_of(es[j as int]) == Some(c@));
                    lemma_extensions_from(es, 0, i as int, views(done@));
                }
                return Err(concat("duplicate VS Code extension identifier: ", debug_str(extensions[i].as_str()).as_str()));
            }
            j += 1;
        }
        let ghost before = views(done@);
        done.push(c);
        assert(views(done@) =~= before.push(views(done@)[i as int]));
        i += 1;
    }
    proof {
        lemma_extensions_from(es, 0, i as int, views(done@));
        assert(extensions_from(es, i as int) == Ok::<Seq<Seq<char>>, Seq<char>>(Seq::empty()));
        assert(views(done@).subrange(0, i as int) + Seq::<Seq<char>>::empty() =~= views(done@));
    }
    let mut r: Vec<String> = Vec::new();
    let mut k: usize = 0;
    while k < done.len()
        invariant
            k <= done@.len(),
            string_views(r@) == views(done@).take(k as int),
        decreases done@.len() - k,
    {
        let ghost before = string_views(r@);
        r.push(string_of(&done[k]));
        k += 1;
        assert(string_views(r@) =~= before.push(done@[k - 1]@));
        assert(string_views(r@) =~= views(done@).take(k as int));
    }
    assert(views(done@).take(k as int) =~= views(done@));
    Ok(r)
}

/// Installing a set of VS Code extensions, held case-folded.
#[derive(Debug)]
pub struct VsCodeExtensionOperation {
    extensions: Vec<String>,
}

impl VsCodeExtensionOperation {
    pub fn new(extensions: Vec<String>) -> (r: Result<Self, String>)
        ensures
            match r {
                Ok(op) => extensions_result(string_views(extensions@)) == Ok::<Seq<Seq<char>>, Seq<char>>(op.extensions_view()),
                Err(e) => extensions_result(string_views(extensions@)) == Err::<Seq<Seq<char>>, Seq<char>>(e@),
            },
    {
        let extensions = canonical_extensions(&extensions)?;
        Ok(VsCodeExtensionOperation { extensions })
    }

    pub closed spec fn extensions_view(&self) -> Seq<Seq<char>> {
        string_views(self.extensions@)
    }

    /// The words that describe the operation in a plan listing.
    pub fn display_args(&self) -> (r: Vec<String>)
        ensures
            string_views(r@) == seq!["vscode-extension-set"@] + self.extensions_view(),
    {
        let mut r = vec!["vscode-extension-set".to_owned()];
        let ghost head = seq!["vscode-extension-set"@];
        assert(string_views(r@) =~= head + string_views(self.extensions@).take(0));
        let mut i: usize = 0;
        while i < self.extensions.len()
            invariant
                i <= self.extensions@.len(),
                head == seq!["vscode-extension-set"@],
                string_views(r@) == head + string_views(self.extensions@).take(i as int),
            decreases self.extensions@.len() - i,
        {
            let ghost before = string_views(r@);
            r.push(self.extensions[i].clone());
            i += 1;
            assert(string_views(r@) =~= before.push(self.extensions@[i - 1]@));
            assert(string_views(r@) =~= head + string_views(self.extensions@).take(i as int));
        }
        assert(string_views(self.extensions@).take(i as int) =~= string_views(self.extensions@));
        r
    }
}

// ------------------------------------------------------------ products and their version probes

/// A product that an integration works with; it must already be installed.
#[derive(Clone, Copy, Debug, PartialEq, Eq, Structural)]
pub enum Product {
    Docker,
    VirtualBox,
    VsCode,
}

pub open spec fn product_label(p: Product) -> Seq<char> {
    match p {
        Product::Docker => "Docker"@,
        Product::VirtualBox => "VirtualBox"@,
        Product::VsCode => "VS Code"@,
    }
}

pub open spec fn product_program(p: Product) -> Seq<char> {
    match p {
        Product::Docker => "docker"@,
        Product::VirtualBox => "VBoxManage"@,
        Product::VsCode => "code"@,
    }
}

pub open spec fn product_group(p: Product) -> Option<Seq<char>> {
    match p {
        Product::Docker => Some("docker"@),
        Product::VirtualBox => Some("vboxusers"@),
        Product::VsCode => None,
    }
}

impl Product {
    pub fn label(self) -> (r: &'static str)
        ensures
            r@ == product_label(self),
    {
        match self {
            Product::Docker => "Docker",
            Product::VirtualBox => "VirtualBox",
            Product::VsCode => "VS Code",
        }
    }

    pub fn program(self) -> (r: &'static str)
        ensures
            r@ == product_program(self),
    {
        match self {
            Product::Docker => "docker",
            Product::VirtualBox => "VBoxManage",
            Product::VsCode => "code",
        }
    }

    pub fn group(self) -> (r: Option<&'static str>)
        ensures
            match r {
                Some(g) => product_group(self) == Some(g@),
                None => product_group(self) is None,
            },
    {
        match self {
            Product::Docker => Some("docker"),
            Product::VirtualBox => Some("vboxusers"),
            Product::VsCode => None,
        }
    }
}

pub open spec fn token_char(c: char) -> bool {
    is_alnum(c) || c == '.' || c == '-' || c == '+' || c == '_'
}

/// A build or pre-release token: alphanumeric at both ends, with `.`,
/// `-`, `+` and `_` between.
pub open spec fn valid_token(v: Seq<char>) -> bool {
    &&& v.len() > 0
    &&& is_alnum(v[0])
    &&& is_alnum(v.last())
    &&& forall|k: int| 0 <= k < v.len() ==> token_char(#[trigger] v[k])
}

fn valid_token_exec(v: &[char]) -> (r: bool)
    ensures
        r == valid_token(v@),
{
    if v.len() == 0 || !alnum(v[0]) || !alnum(v[v.len() - 1]) {
        return false;
    }
    let f = |c: char| -> (b: bool)
        ensures
            b == token_char(c),
        { alnum(c) || c == '.' || c == '-' || c == '+' || c == '_' };
    all_chars(v, f, Ghost(|c: char| token_char(c)))
}

/// Where the numeric core of a version ends: at the first character, from
/// `from` on, that is neither a digit nor `.`.
pub open spec fn core_end(v: Seq<char>, from: int) -> int
    decreases v.len() - from,
{
    if from < 0 || from >= v.len() {
        v.len() as int
    } else if !(is_digit(v[from]) || v[from] == '.') {
        from
    } else {
        core_end(v, from + 1)
    }
}

pub open spec fn digits_only(v: Seq<char>) -> bool {
    forall|k: int| 0 <= k < v.len() ==> is_digit(#[trigger] v[k])
}

/// A version: two or more dot-separated numbers, then nothing, or `-`,
/// `+` or `_` and a token.
pub open spec fn valid_version_token(v: Seq<char>) -> bool {
    let n = core_end(v, 0);
    let parts = split(v.take(n), '.');
    let suffix = v.skip(n);
    &&& parts.len() >= 2
    &&& forall|i: int| 0 <= i < parts.len() ==> #[trigger] parts[i].len() > 0 && digits_only(parts[i])
    &&& (suffix.len() == 0 || ((suffix[0] == '-' || suffix[0] == '+' || suffix[0] == '_') && valid_token(suffix.drop_first())))
}

fn digits_exec(v: &[char]) -> (r: bool)
    ensures
        r == digits_only(v@),
{
    let f = |c: char| -> (b: bool)
        ensures
            b == is_digit(c),
        { digit(c) };
    all_chars(v, f, Ghost(|c: char| is_digit(c)))
}

fn valid_version_exec(v: &[char]) -> (r: bool)
    ensures
        r == valid_version_token(v@),
{
    let mut n: usize = 0;
    while n < v.len() && (digit(v[n]) || v[n] == '.')
        invariant
            n <= v@.len(),
            core_end(v@, 0) == core_end(v@, n as int),
        decreases v@.len() - n,
    {
        n += 1;
    }
    assert(core_end(v@, 0) == n as int);
    let core = slice_to_vec(v, 0, n);
    let suffix = slice_to_vec(v, n, v.len());
    assert(core@ =~= v@.take(n as int));
    assert(suffix@ =~= v@.skip(n as int));
    let parts = split_chars(&core, '.');
    let ghost pv = split(core@, '.');
    if parts.len() < 2 {
        return false;
    }
    let mut i: usize = 0;
    while i < parts.len()
        invariant
            i <= parts@.len(),
            views(parts@) == pv,
            pv == split(v@.take(core_end(v@, 0)), '.'),
            forall|k: int| 0 <= k < i ==> #[trigger] pv[k].len() > 0 && digits_only(pv[k]),
        decreases parts@.len() - i,
    {
        assert(pv[i as int] == parts@[i as int]@);
        if parts[i].len() == 0 || !digits_exec(&parts[i]) {
            assert(!(pv[i as int].len() > 0 && digits_only(pv[i as int])));
            return false;
        }
        i += 1;
    }
    if suffix.len() == 0 {
        return true;
    }
    if !(suffix[0] == '-' || suffix[0] == '+' || suffix[0] == '_') {
        return false;
    }
    let tail = slice_to_vec(&suffix, 1, suffix.len());
    assert(tail@ =~= suffix@.drop_first());
    valid_token_exec(&tail)
}

/// The text without one trailing newline.
pub open spec fn without_newline(v: Seq<char>) -> Seq<char> {
    if v.len() > 0 && v.last() == '\n' {
        v.drop_last()
    } else {
        v
    }
}

fn without_newline_exec(v: &Vec<char>) -> (r: Vec<char>)
    ensures
        r@ == without_newline(v@),
{
    if v.len() > 0 && v[v.len() - 1] == '\n' {
        let r = slice_to_vec(v, 0, v.len() - 1);
        assert(r@ =~= v@.drop_last());
        r
    } else {
        slice_to_vec(v, 0, v.len())
    }
}

/// `docker --version`: `Docker version <version>, build <token>`.
pub open spec fn valid_docker_version(v: Seq<char>) -> bool {
    let w = without_newline(v);
    has_prefix(w, "Docker version "@) && {
        let rest = w.skip(15);
        match first_occurrence(rest, ", build "@) {
            None => false,
            Some(k) => valid_version_token(rest.take(k)) && valid_token(rest.skip(k + 8)),
        }
    }
}

/// `VBoxManage --version`: one line, `<version>r<revision number>`.
pub open spec fn valid_virtualbox_version(v: Seq<char>) -> bool {
    let w = without_newline(v);
    !w.contains('\n') && !w.contains('\r') && match first_index(w, 'r') {
        None => false,
        Some(k) => valid_version_token(w.take(k)) && valid_revision(w, k),
    }
}

pub open spec fn is_hex_digit(c: char) -> bool {
    is_digit(c) || ('a' <= c && c <= 'f') || ('A' <= c && c <= 'F')
}

/// `code --version`: exactly three lines, the version, a commit of at
/// least seven hexadecimal digits, and the architecture.
pub open spec fn valid_vscode_version(v: Seq<char>) -> bool {
    let ls = lines(v);
    &&& ls.len() == 3
    &&& valid_version_token(ls[0])
    &&& ls[1].len() >= 7
    &&& forall|k: int| 0 <= k < ls[1].len() ==> is_hex_digit(#[trigger] ls[1][k])
    &&& (ls[2] == "x64"@ || ls[2] == "arm64"@ || ls[2] == "armhf"@ || ls[2] == "ia32"@)
}

pub open spec fn valid_probe(p: Product, text: Seq<char>) -> bool {
    match p {
        Product::Docker => valid_docker_version(text),
        Product::VirtualBox => valid_virtualbox_version(text),
        Product::VsCode => valid_vscode_version(text),
    }
}

fn docker_version_exec(v: &Vec<char>) -> (r: bool)
    ensures
        r == valid_docker_version(v@),
{
    let w = without_newline_exec(v);
    let head = chars_of("Docker version ");
    proof {
        reveal_strlit("Docker version ");
    }
    if !crate::text::starts_with(&w, &head) {
        return false;
    }
    let rest = slice_to_vec(&w, 15, w.len());
    assert(rest@ =~= w@.skip(15));
    let marker = chars_of(", build ");
    proof {
        reveal_strlit(", build ");
    }
    match crate::text::find_seq(&rest, &marker) {
        None => {
            assert(first_occurrence(rest@, ", build "@) is None);
            false
        },
        Some(k) => {
            proof {
                crate::text::lemma_first_occurrence_at(rest@, ", build "@, k as int);
            }
            let version = slice_to_vec(&rest, 0, k);
            let build = slice_to_vec(&rest, k + 8, rest.len());
            assert(version@ =~= rest@.take(k as int));
            assert(build@ =~= rest@.skip(k + 8));
            valid_version_exec(&version) && valid_token_exec(&build)
        },
    }
}

/// The revision part of a VirtualBox version: a non-empty number.
pub open spec fn valid_revision(w: Seq<char>, k: int) -> bool {
    w.skip(k + 1).len() > 0 && digits_only(w.skip(k + 1))
}

fn virtualbox_parts(w: &Vec<char>, k: usize) -> (r: bool)
    requires
        k < w.len(),
    ensures
        r == (valid_version_token(w@.take(k as int)) && valid_revision(w@, k as int)),
{
    let version = slice_to_vec(w, 0, k);
    let revision = slice_to_vec(w, k + 1, w.len());
    assert(version@ =~= w@.take(k as int));
    assert(revision@ =~= w@.skip(k + 1));
    valid_version_exec(&version) && revision.len() > 0 && digits_exec(&revision)
}

fn virtualbox_version_exec(v: &Vec<char>) -> (r: bool)
    ensures
        r == valid_virtualbox_version(v@),
{
    let w = without_newline_exec(v);
    let ghost wv = without_newline(v@);
    assert(w@ == wv);
    if crate::text::contains_char(&w, '\n') || crate::text::contains_char(&w, '\r') {
        return false;
    }
    match crate::text::first_index_of(&w, 'r') {
        None => false,
        Some(k) => virtualbox_parts(&w, k),
    }
}

fn vscode_version_exec(v: &Vec<char>) -> (r: bool)
    ensures
        r == valid_vscode_version(v@),
{
    let ls = lines_of(v);
    if ls.len() != 3 {
        return false;
    }
    assert(views(ls@)[0] == ls@[0]@ && views(ls@)[1] == ls@[1]@ && views(ls@)[2] == ls@[2]@);
    let hex = |c: char| -> (b: bool)
        ensures
            b == is_hex_digit(c),
        { digit(c) || ('a' <= c && c <= 'f') || ('A' <= c && c <= 'F') };
    let arch = &ls[2];
    valid_version_exec(&ls[0]) && ls[1].len() >= 7 && all_chars(&ls[1], hex, Ghost(|c: char| is_hex_digit(c))) && (
    eq_str(arch, "x64") || eq_str(arch, "arm64") || eq_str(arch, "armhf") || eq_str(arch, "ia32"))
}

/// What a version probe of the product printed must be: UTF-8, in the
/// product's format.
pub open spec fn probe_check(p: Product, stdout: Seq<u8>) -> Result<(), Seq<char>> {
    if !vstd::utf8::valid_utf8(stdout) {
        Err(product_label(p) + " version probe returned non-UTF-8 output"@)
    } else if !valid_probe(p, vstd::utf8::decode_utf8(stdout)) {
        Err(product_label(p) + " version probe returned malformed output"@)
    } else {
        Ok(())
    }
}

/// Checks what `<program> --version` printed.
pub fn check_version_probe(product: Product, stdout: &[u8]) -> (r: Result<(), String>)
    ensures
        same_outcome(r, probe_check(product, stdout@)),
{
    let text = match utf8_text(stdout) {
        None => {
            return Err(concat(product.label(), " version probe returned non-UTF-8 output"));
        },
        Some(t) => t,
    };
    let v = chars_of(text.as_str());
    let valid = match product {
        Product::Docker => docker_version_exec(&v),
        Product::VirtualBox => virtualbox_version_exec(&v),
        Product::VsCode => vscode_version_exec(&v),
    };
    if !valid {
        return Err(concat(product.label(), " version probe returned malformed output"));
    }
    Ok(())
}

pub open spec fn probe_command(p: Product) -> CommandView {
    CommandView {
        label: product_label(p) + " existing-product preflight"@,
        program: product_program(p),
        args: seq!["--version"@],
        check: true,
    }
}

/// The version probe that shows the product is installed and usable.
pub fn version_probe(product: Product) -> (r: Command)
    ensures
        r@ == probe_command(product),
{
    let label = concat(product.label(), " existing-product preflight");
    let r = checked(label.as_str(), product.program(), words(&["--version"]));
    assert(r@.args =~= seq!["--version"@]);
    r
}

/// The error where the version probe itself fails.
pub fn probe_failure(product: Product) -> (r: String)
    ensures
        r@ == product_label(product) + " integration requires an existing usable "@ + product_program(product) + " CLI"@,
{
    let mut m = concat3(product.label(), " integration requires an existing usable ", product.program());
    m.append(" CLI");
    m
}

// ------------------------------------------------------------ users, groups and records

/// The one record a query printed: UTF-8, without one trailing newline,
/// not empty and on one line.
pub open spec fn record_result(bytes: Seq<u8>, command: Seq<char>) -> Result<Seq<char>, Seq<char>> {
    if !vstd::utf8::valid_utf8(bytes) {
        Err(command + " returned non-UTF-8 output"@)
    } else {
        let r = without_newline(vstd::utf8::decode_utf8(bytes));
        if r.len() == 0 || r.contains('\n') || r.contains('\r') {
            Err(command + " returned malformed record output"@)
        } else {
            Ok(r)
        }
    }
}

pub fn one_utf8_record(bytes: &[u8], command: &str) -> (r: Result<String, String>)
    ensures
        match r {
            Ok(s) => record_result(bytes@, command@) == Ok::<Seq<char>, Seq<char>>(s@),
            Err(e) => record_result(bytes@, command@) == Err::<Seq<char>, Seq<char>>(e@),
        },
{
    let text = match utf8_text(bytes) {
        None => {
            return Err(concat(command, " returned non-UTF-8 output"));
        },
        Some(t) => t,
    };
    let record = without_newline_exec(&chars_of(text.as_str()));
    if record.len() == 0 || crate::text::contains_char(&record, '\n') || crate::text::contains_char(&record, '\r') {
        return Err(concat(command, " returned malformed record output"));
    }
    Ok(string_of(&record))
}

/// A decimal user or group ID: digits only, no larger than `u32::MAX`.
pub open spec fn decimal_id(v: Seq<char>) -> Option<nat> {
    if v.len() > 0 && digits_only(v) {
        crate::text::parsed_unsigned(v, 10, 0xffff_ffff)
    } else {
        None
    }
}

pub fn parse_decimal_id(v: &[char]) -> (r: Option<u32>)
    ensures
        match r {
            Some(id) => decimal_id(v@) == Some(id as nat),
            None => decimal_id(v@) is None,
        },
{
    if v.len() == 0 || !digits_exec(v) {
        return None;
    }
    match crate::text::parse_unsigned(v, 10, 0xffff_ffff) {
        Some(n) => Some(n as u32),
        None => None,
    }
}

pub open spec fn is_ascii_control(c: char) -> bool {
    c <= '\u{1f}' || c == '\u{7f}'
}

pub open spec fn has_ascii_control(v: Seq<char>) -> bool {
    exists|k: int| 0 <= k < v.len() && is_ascii_control(#[trigger] v[k])
}

fn ascii_control_exec(v: &[char]) -> (r: bool)
    ensures
        r == has_ascii_control(v@),
{
    let f = |c: char| -> (b: bool)
        ensures
            b == is_ascii_control(c),
        { c <= '\u{1f}' || c == '\u{7f}' };
    crate::text::any_chars(v, f, Ghost(|c: char| is_ascii_control(c)))
}

pub const PASSWD_MALFORMED: &'static str = "getent passwd returned a malformed or mismatched effective-user record";

/// The login name of the effective user, from `getent passwd <uid>`: a
/// record of seven fields, a non-empty login and the user's ID.
pub open spec fn passwd_login(stdout: Seq<u8>, uid: u32) -> Result<Seq<char>, Seq<char>> {
    match record_result(stdout, "getent passwd"@) {
        Err(e) => Err(e),
        Ok(r) => if has_ascii_control(r) {
            Err("getent passwd returned control characters"@)
        } else {
            let f = split(r, ':');
            if f.len() == 7 && f[0].len() > 0 && decimal_id(f[2]) == Some(uid as nat) {
                Ok(f[0])
            } else {
                Err(PASSWD_MALFORMED@)
            }
        },
    }
}

pub fn effective_user_login(stdout: &[u8], uid: u32) -> (r: Result<String, String>)
    ensures
        match r {
            Ok(s) => passwd_login(stdout@, uid) == Ok::<Seq<char>, Seq<char>>(s@),
            Err(e) => passwd_login(stdout@, uid) == Err::<Seq<char>, Seq<char>>(e@),
        },
{
    let record = one_utf8_record(stdout, "getent passwd")?;
    let v = chars_of(record.as_str());
    if ascii_control_exec(&v) {
        return Err("getent passwd returned control characters".to_owned());
    }
    let fields = split_chars(&v, ':');
    if fields.len() != 7 {
        return Err(PASSWD_MALFORMED.to_owned());
    }
    assert(views(fields@)[0] == fields@[0]@ && views(fields@)[2] == fields@[2]@);
    let matches = match parse_decimal_id(&fields[2]) {
        Some(id) => id == uid,
        None => false,
    };
    if fields[0].len() == 0 || !matches {
        return Err(PASSWD_MALFORMED.to_owned());
    }
    Ok(string_of(&fields[0]))
}

pub const GROUP_MALFORMED: &'static str = "getent group returned a malformed or mismatched group record";

/// The ID of a group, from `getent group <group>` (its success, exit code,
/// output, and the status and standard error as text): none where the
/// query exits with 2 and prints nothing, else the record of four fields
/// for the group.
pub open spec fn group_id_result(success: bool, code: Option<i32>, stdout: Seq<u8>, status: Seq<char>, stderr: Seq<char>, group: Seq<char>) -> Result<Option<nat>, Seq<char>> {
    if !success {
        if code == Some(2i32) && stdout.len() == 0 {
            Ok(None)
        } else {
            Err("system group query failed ("@ + status + "): "@ + crate::text::trim(stderr))
        }
    } else {
        match record_result(stdout, "getent group"@) {
            Err(e) => Err(e),
            Ok(r) => if has_ascii_control(r) {
                Err("getent group returned control characters"@)
            } else {
                let f = split(r, ':');
                if f.len() == 4 && f[0] == group && decimal_id(f[2]) is Some {
                    Ok(decimal_id(f[2]))
                } else {
                    Err(GROUP_MALFORMED@)
                }
            },
        }
    }
}

pub fn group_gid(success: bool, code: Option<i32>, stdout: &[u8], status: &str, stderr: &str, group: &str) -> (r: Result<Option<u32>, String>)
    ensures
        match r {
            Ok(Some(id)) => group_id_result(success, code, stdout@, status@, stderr@, group@) == Ok::<Option<nat>, Seq<char>>(Some(id as nat)),
            Ok(None) => group_id_result(success, code, stdout@, status@, stderr@, group@) == Ok::<Option<nat>, Seq<char>>(None),
            Err(e) => group_id_result(success, code, stdout@, status@, stderr@, group@) == Err::<Option<nat>, Seq<char>>(e@),
        },
{
    if !success {
        let exited_two = match code {
            Some(c) => c == 2,
            None => false,
        };
        if exited_two && stdout.len() == 0 {
            return Ok(None);
        }
        let trimmed = string_of(&crate::text::trim_chars(&chars_of(stderr)));
        let mut m = concat3("system group query failed (", status, "): ");
        m.append(trimmed.as_str());
        return Err(m);
    }
    let record = one_utf8_record(stdout, "getent group")?;
    let v = chars_of(record.as_str());
    if ascii_control_exec(&v) {
        return Err("getent group returned control characters".to_owned());
    }
    let fields = split_chars(&v, ':');
    if fields.len() != 4 {
        return Err(GROUP_MALFORMED.to_owned());
    }
    assert(views(fields@)[0] == fields@[0]@ && views(fields@)[2] == fields@[2]@);
    if !eq_str(&fields[0], group) {
        return Err(GROUP_MALFORMED.to_owned());
    }
    match parse_decimal_id(&fields[2]) {
        Some(id) => Ok(Some(id)),
        None => Err(GROUP_MALFORMED.to_owned()),
    }
}

/// The group IDs that `id -G <user>` printed: whitespace-separated decimal
/// IDs, each once.
pub open spec fn group_ids_result(stdout: Seq<u8>) -> Result<Seq<nat>, Seq<char>> {
    match record_result(stdout, "id -G"@) {
        Err(e) => Err(e),
        Ok(r) => {
            let ws = crate::text::words(r);
            if exists|i: int| 0 <= i < ws.len() && #[trigger] decimal_id(ws[i]) is None {
                Err("id -G returned malformed group IDs"@)
            } else {
                let ids = ws.map_values(|w: Seq<char>| decimal_id(w)->0);
                if ids.no_duplicates() {
                    Ok(ids)
                } else {
                    Err("id -G returned duplicate group IDs"@)
                }
            }
        },
    }
}

pub fn user_group_ids(stdout: &[u8]) -> (r: Result<Vec<u32>, String>)
    ensures
        match r {
            Ok(ids) => group_ids_result(stdout@) == Ok::<Seq<nat>, Seq<char>>(ids@.map_values(|id: u32| id as nat)),
            Err(e) => group_ids_result(stdout@) == Err::<Seq<nat>, Seq<char>>(e@),
        },
{
    let record = one_utf8_record(stdout, "id -G")?;
    let v = chars_of(record.as_str());
    let ws = crate::text::words_of(&v);
    let ghost wv = views(ws@);
    let ghost rec = record@;
    assert(record_result(stdout@, "id -G"@) == Ok::<Seq<char>, Seq<char>>(rec));
    assert(wv == crate::text::words(rec));
    let mut ids: Vec<u32> = Vec::new();
    let mut i: usize = 0;
    while i < ws.len()
        invariant
            i <= ws@.len(),
            wv == views(ws@),
            record_result(stdout@, "id -G"@) == Ok::<Seq<char>, Seq<char>>(rec),
            wv == crate::text::words(rec),
            ids@.len() == i,
            forall|k: int| 0 <= k < i ==> #[trigger] decimal_id(wv[k]) == Some(ids@[k] as nat),
        decreases ws@.len() - i,
    {
        assert(wv[i as int] == ws@[i as int]@);
        match parse_decimal_id(&ws[i]) {
            Some(id) => {
                ids.push(id);
            },
            None => {
                return Err("id -G returned malformed group IDs".to_owned());
            },
        }
        i += 1;
    }
    let ghost idv = ids@.map_values(|id: u32| id as nat);
    assert(idv =~= wv.map_values(|w: Seq<char>| decimal_id(w)->0));
    assert forall|q: int| 0 <= q < wv.len() implies #[trigger] decimal_id(wv[q]) is Some by {
        assert(decimal_id(wv[q]) == Some(ids@[q] as nat));
    }
    let mut k: usize = 0;
    while k < ids.len()
        invariant
            k <= ids@.len(),
            idv == ids@.map_values(|id: u32| id as nat),
            record_result(stdout@, "id -G"@) == Ok::<Seq<char>, Seq<char>>(rec),
            wv == crate::text::words(rec),
            idv == wv.map_values(|w: Seq<char>| decimal_id(w)->0),
            forall|q: int| 0 <= q < wv.len() ==> #[trigger] decimal_id(wv[q]) is Some,
            forall|a: int, b: int| 0 <= a < b < k ==> idv[a] != idv[b],
        decreases ids@.len() - k,
    {
        let mut j: usize = 0;
        while j < k
            invariant
                j <= k < ids@.len(),
                idv == ids@.map_values(|id: u32| id as nat),
                record_result(stdout@, "id -G"@) == Ok::<Seq<char>, Seq<char>>(rec),
                wv == crate::text::words(rec),
                idv == wv.map_values(|w: Seq<char>| decimal_id(w)->0),
                forall|q: int| 0 <= q < wv.len() ==> #[trigger] decimal_id(wv[q]) is Some,
                forall|a: int| 0 <= a < j ==> idv[a] != idv[k as int],
            decreases k - j,
        {
            if ids[j] == ids[k] {
                assert(idv[j as int] == idv[k as int]);
                assert(!idv.no_duplicates());
                return Err("id -G returned duplicate group IDs".to_owned());
            }
            j += 1;
        }
        k += 1;
    }
    assert forall|a: int, b: int| 0 <= a < idv.len() && 0 <= b < idv.len() && a != b implies idv[a] != idv[b] by {
        if a > b {
            assert(idv[b] != idv[a]);
        }
    }
    Ok(ids)
}

// ------------------------------------------------------------ group membership

pub open spec fn group_creation(p: Product, group: Seq<char>) -> CommandView {
    CommandView {
        label: product_label(p) + " group creation"@,
        program: "sudo"@,
        args: seq!["groupadd"@, "--system"@, group],
        check: true,
    }
}

pub open spec fn group_membership(p: Product, group: Seq<char>, user: Seq<char>) -> CommandView {
    CommandView {
        label: product_label(p) + " group membership"@,
        program: "sudo"@,
        args: seq!["usermod"@, "-aG"@, group, "--"@, user],
        check: true,
    }
}

/// The command that creates the product's system group.
pub fn group_creation_command(product: Product, group: &str) -> (r: Command)
    ensures
        r@ == group_creation(product, group@),
{
    let label = concat(product.label(), " group creation");
    let r = checked(label.as_str(), "sudo", words(&["groupadd", "--system", group]));
    assert(r@.args =~= seq!["groupadd"@, "--system"@, group@]);
    r
}

/// The command that adds the user to the product's group.
pub fn group_membership_command(product: Product, group: &str, username: &str) -> (r: Command)
    ensures
        r@ == group_membership(product, group@, username@),
{
    let label = concat(product.label(), " group membership");
    let r = checked(label.as_str(), "sudo", words(&["usermod", "-aG", group, "--", username]));
    assert(r@.args =~= seq!["usermod"@, "-aG"@, group@, "--"@, username@]);
    r
}

/// The error where the group is still missing after its creation.
pub fn group_not_created(product: Product, group: &str) -> (r: String)
    ensures
        r@ == product_label(product) + " group creation did not create "@ + group@,
{
    concat3(product.label(), " group creation did not create ", group)
}

/// The error where the user is still outside the group after the change.
pub fn membership_not_added(product: Product, username: &str, group: &str) -> (r: String)
    ensures
        r@ == product_label(product) + " group membership mutation did not add "@ + username@ + " to "@ + group@,
{
    let mut m = concat3(product.label(), " group membership mutation did not add ", username);
    m.append(" to ");
    m.append(group);
    m
}

// ------------------------------------------------------------ the Docker daemon configuration

pub const DOCKER_DAEMON_CONFIG: &'static str = "/etc/docker/daemon.json";

/// A regular file, by the file type bits of a mode (`S_IFREG`).
pub open spec fn regular_file_mode(mode: nat) -> bool {
    (mode / 4096) % 16 == 8
}

/// What `sudo stat --format=%f` printed of the configuration file: its
/// mode in hexadecimal, which must be that of a regular file.
pub open spec fn daemon_mode_check(stdout: Seq<u8>) -> Result<(), Seq<char>> {
    match record_result(stdout, "sudo stat"@) {
        Err(e) => Err(e),
        Ok(r) => match crate::text::parsed_unsigned(r, 16, 0xffff_ffff) {
            None => Err("sudo stat returned malformed mode output"@),
            Some(mode) => if regular_file_mode(mode) {
                Ok(())
            } else {
                Err("Docker daemon config destination is not a regular file"@)
            },
        },
    }
}

pub fn check_daemon_mode(stdout: &[u8]) -> (r: Result<(), String>)
    ensures
        same_outcome(r, daemon_mode_check(stdout@)),
{
    let record = one_utf8_record(stdout, "sudo stat")?;
    let mode = match crate::text::parse_unsigned(&chars_of(record.as_str()), 16, 0xffff_ffff) {
        None => {
            return Err("sudo stat returned malformed mode output".to_owned());
        },
        Some(m) => m as u32,
    };
    assert((mode & 0xf000u32 == 0x8000u32) == ((mode / 4096) % 16 == 8)) by (bit_vector);
    if mode & 0xf000 != 0x8000 {
        return Err("Docker daemon config destination is not a regular file".to_owned());
    }
    Ok(())
}

/// The checks that the configuration file is absent and no link, where
/// `stat` found nothing.
pub fn daemon_absence_commands() -> (r: Vec<Command>)
    ensures
        command_views(r@) == seq![
            CommandView { label: "Docker daemon config absence check"@, program: "sudo"@,
                args: seq!["test"@, "!"@, "-e"@, DOCKER_DAEMON_CONFIG@], check: true },
            CommandView { label: "Docker daemon config symlink absence check"@, program: "sudo"@,
                args: seq!["test"@, "!"@, "-L"@, DOCKER_DAEMON_CONFIG@], check: true },
        ],
{
    let a = checked("Docker daemon config absence check", "sudo", words(&["test", "!", "-e", DOCKER_DAEMON_CONFIG]));
    let b = checked("Docker daemon config symlink absence check", "sudo", words(&["test", "!", "-L", DOCKER_DAEMON_CONFIG]));
    assert(a@.args =~= seq!["test"@, "!"@, "-e"@, DOCKER_DAEMON_CONFIG@]);
    assert(b@.args =~= seq!["test"@, "!"@, "-L"@, DOCKER_DAEMON_CONFIG@]);
    let r = vec![a, b];
    assert(command_views(r@) =~= seq![a@, b@]);
    r
}

pub const NOT_AN_OBJECT: &'static str = "Docker daemon config must be a JSON object";

pub const LOG_OPTS_NOT_AN_OBJECT: &'static str = "Docker daemon config log-opts must be a JSON object";

pub open spec fn is_text(v: Option<Json>, text: Seq<char>) -> bool {
    v matches Some(Json::Str(s)) && s@ == text
}

/// Whether the configuration already selects the local log driver (and
/// the size limit, where one is given): setting them would change
/// nothing. The configuration must be an object, and so must its
/// `log-opts` where a size limit is to be set.
pub open spec fn daemon_settings_current(config: Json, max_size: Option<Seq<char>>) -> Result<bool, Seq<char>> {
    if !(config is Object) {
        Err(NOT_AN_OBJECT@)
    } else {
        let driver = is_text(member(config, "log-driver"@), "local"@);
        match max_size {
            None => Ok(driver),
            Some(m) => match member(config, "log-opts"@) {
                None => Ok(false),
                Some(opts) => if opts is Object {
                    Ok(driver && is_text(member(opts, "max-size"@), m))
                } else {
                    Err(LOG_OPTS_NOT_AN_OBJECT@)
                },
            },
        }
    }
}

fn text_member(v: &Json, key: &str, text: &str) -> (r: bool)
    ensures
        r == is_text(member(*v, key@), text@),
{
    match v.get(key) {
        Some(m) => match m.as_str() {
            Some(s) => eq_str(&chars_of(s), text),
            None => false,
        },
        None => false,
    }
}

pub fn daemon_settings_in_place(config: &Json, max_size: Option<&str>) -> (r: Result<bool, String>)
    ensures
        match r {
            Ok(b) => daemon_settings_current(*config, match max_size { Some(m) => Some(m@), None => None }) == Ok::<bool, Seq<char>>(b),
            Err(e) => daemon_settings_current(*config, match max_size { Some(m) => Some(m@), None => None }) == Err::<bool, Seq<char>>(e@),
        },
{
    match config {
        Json::Object(_) => {},
        _ => {
            return Err(NOT_AN_OBJECT.to_owned());
        },
    }
    let driver = text_member(config, "log-driver", "local");
    match max_size {
        None => Ok(driver),
        Some(m) => match config.get("log-opts") {
            None => Ok(false),
            Some(opts) => match opts {
                Json::Object(_) => Ok(driver && text_member(opts, "max-size", m)),
                _ => Err(LOG_OPTS_NOT_AN_OBJECT.to_owned()),
            },
        },
    }
}

// ------------------------------------------------------------ installed VS Code extensions

pub open spec fn extension_lines(stdout: Seq<u8>) -> Seq<Seq<char>> {
    lines(vstd::utf8::decode_utf8(stdout))
}

pub open spec fn extension_line_check(ls: Seq<Seq<char>>, i: int) -> Result<(), Seq<char>> {
    match canonical_extension_of(ls[i]) {
        None => Err("code returned malformed extension identifier: "@ + debug_text(ls[i])),
        Some(c) => if exists|j: int| 0 <= j < i && #[trigger] canonical_extension_of(ls[j]) == Some(c) {
            Err("code returned duplicate case-folded extension identifiers"@)
        } else {
            Ok(())
        },
    }
}

/// The installed extensions that `code --list-extensions` printed,
/// case-folded, in order; a malformed or repeated one is an error.
pub open spec fn installed_extensions_result(stdout: Seq<u8>) -> Result<Seq<Seq<char>>, Seq<char>> {
    if !vstd::utf8::valid_utf8(stdout) {
        Err("code returned non-UTF-8 installed extension state"@)
    } else {
        let ls = extension_lines(stdout);
        match crate::text::first_error(Seq::new(ls.len(), |i: int| extension_line_check(ls, i))) {
            Err(e) => Err(e),
            Ok(_) => Ok(ls.map_values(|l: Seq<char>| canonical_extension_of(l)->0)),
        }
    }
}

pub fn installed_extensions(stdout: &[u8]) -> (r: Result<Vec<String>, String>)
    ensures
        match r {
            Ok(es) => installed_extensions_result(stdout@) == Ok::<Seq<Seq<char>>, Seq<char>>(string_views(es@)),
            Err(e) => installed_extensions_result(stdout@) == Err::<Seq<Seq<char>>, Seq<char>>(e@),
        },
{
    let text = match utf8_text(stdout) {
        None => {
            return Err("code returned non-UTF-8 installed extension state".to_owned());
        },
        Some(t) => t,
    };
    let ls = lines_of(&chars_of(text.as_str()));
    let ghost lv = extension_lines(stdout@);
    let ghost cs = Seq::new(lv.len(), |i: int| extension_line_check(lv, i));
    let mut found: Vec<String> = Vec::new();
    let mut i: usize = 0;
    assert(cs.take(0) =~= Seq::<Result<(), Seq<char>>>::empty());
    while i < ls.len()
        invariant
            i <= ls@.len(),
            views(ls@) == lv,
            lv == extension_lines(stdout@),
            vstd::utf8::valid_utf8(stdout@),
            cs == Seq::new(lv.len(), |i: int| extension_line_check(lv, i)),
            crate::text::first_error(cs.take(i as int)) is Ok,
            found@.len() == i,
            forall|k: int| 0 <= k < i ==> canonical_extension_of(lv[k]) == Some(#[trigger] string_views(found@)[k]),
        decreases ls@.len() - i,
    {
        proof {
            crate::text::lemma_first_error_step(cs, i as int);
        }
        assert(lv[i as int] == ls@[i as int]@);
        let c = match canonical_extension(&ls[i]) {
            None => {
                proof {
                    crate::text::lemma_first_error_stop(cs, i + 1);
                }
                let line = string_of(&ls[i]);
                return Err(concat("code returned malformed extension identifier: ", debug_str(line.as_str()).as_str()));
            },
            Some(c) => c,
        };
        let mut j: usize = 0;
        while j < i
            invariant
                j <= i < lv.len(),
                found@.len() == i,
                lv == extension_lines(stdout@),
                vstd::utf8::valid_utf8(stdout@),
                cs == Seq::new(lv.len(), |i: int| extension_line_check(lv, i)),
                crate::text::first_error(cs.take(i as int)) is Ok,
                crate::text::first_error(cs.take(i + 1)) == cs[i as int],
                canonical_extension_of(lv[i as int]) == Some(c@),
                forall|k: int| 0 <= k < i ==> canonical_extension_of(lv[k]) == Some(#[trigger] string_views(found@)[k]),
                forall|k: int| 0 <= k < j ==> string_views(found@)[k] != c@,
            decreases i - j,
        {
            assert(string_views(found@)[j as int] == found@[j as int]@);
            if eq_chars(&chars_of(found[j].as_str()), &c) {
                proof {
                    assert(canonical_extension_of(lv[j as int]) == Some(c@));
                    crate::text::lemma_first_error_stop(cs, i + 1);
                }
                return Err("code returned duplicate case-folded extension identifiers".to_owned());
            }
            j += 1;
        }
        proof {
            if exists|k: int| 0 <= k < i && #[trigger] canonical_extension_of(lv[k]) == Some(c@) {
                let k = choose|k: int| 0 <= k < i && #[trigger] canonical_extension_of(lv[k]) == Some(c@);
                assert(string_views(found@)[k] == c@);
            }
        }
        let ghost before = string_views(found@);
        let ghost cv = c@;
        found.push(string_of(&c));
        assert(string_views(found@) =~= before.push(cv));
        i += 1;
    }
    proof {
        crate::text::lemma_first_error_whole(cs);
    }
    assert(string_views(found@) =~= lv.map_values(|l: Seq<char>| canonical_extension_of(l)->0));
    Ok(found)
}

pub open spec fn extension_install(extension: Seq<char>) -> CommandView {
    CommandView {
        label: "VS Code extension installation"@,
        program: "code"@,
        args: seq!["--install-extension"@, extension],
        check: true,
    }
}

/// The installs of the configured extensions that are not installed, in
/// order.
pub fn extension_installs(operation: &VsCodeExtensionOperation, installed: &Vec<String>) -> (r: Vec<Command>)
    ensures
        command_views(r@) == crate::operations::cargo::missing_packages(operation.extensions_view(), string_views(installed@)).map_values(
            |e: Seq<char>| extension_install(e),
        ),
{
    let missing = crate::operations::cargo::missing_from(&operation.extensions, installed);
    let ghost mv = string_views(missing@);
    let mut r: Vec<Command> = Vec::new();
    let mut i: usize = 0;
    while i < missing.len()
        invariant
            i <= missing@.len(),
            mv == string_views(missing@),
            command_views(r@) == mv.take(i as int).map_values(|e: Seq<char>| extension_install(e)),
        decreases missing@.len() - i,
    {
        let c = checked("VS Code extension installation", "code", words(&["--install-extension", missing[i].as_str()]));
        assert(c@.args =~= seq!["--install-extension"@, mv[i as int]]);
        let ghost before = command_views(r@);
        r.push(c);
        i += 1;
        assert(command_views(r@) =~= before.push(c@));
        assert(mv.take(i as int) =~= mv.take(i - 1).push(mv[i - 1]));
        assert(command_views(r@) =~= mv.take(i as int).map_values(|e: Seq<char>| extension_install(e)));
    }
    assert(mv.take(i as int) =~= mv);
    r
}

/// After the installs: the error that names the configured extensions
/// still not installed, if any.
pub fn extensions_still_missing(operation: &VsCodeExtensionOperation, installed: &Vec<String>) -> (r: Option<String>)
    ensures
        match r {
            None => crate::operations::cargo::missing_packages(operation.extensions_view(), string_views(installed@)).len() == 0,
            Some(e) => {
                let m = crate::operations::cargo::missing_packages(operation.extensions_view(), string_views(installed@));
                m.len() > 0 && e@ == "VS Code extension installation did not install configured extensions: "@ + crate::text::join(m, ", "@)
            },
        },
{
    let missing = crate::operations::cargo::missing_from(&operation.extensions, installed);
    if missing.len() == 0 {
        return None;
    }
    let joined = crate::text::join_strings(&missing, ", ");
    Some(concat("VS Code extension installation did not install configured extensions: ", joined.as_str()))
}

} // verus!
