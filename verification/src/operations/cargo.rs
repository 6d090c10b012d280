//! Cargo packages installed through `cargo-binstall`: which names may be
//! configured, what `cargo install --list` reports, and what must follow.
use vstd::prelude::*;
use crate::text::{
    alnum, all_chars, chars_of, concat, control, debug_str, debug_text, eq_chars, first_occurrence,
    has_control, is_alnum, is_control, is_space, join, join_strings, lemma_first_occurrence_at,
    lines, lines_of, slice_to_vec, space, string_of, string_views, utf8_text, views, find_seq,
};
use crate::versions::{parse_semver, semver_parse};

verus! {

#[derive(Clone, Copy, Debug, PartialEq, Eq, Structural)]
pub enum CargoPackageMode {
    EnsurePresent,
    UpdateCurrent,
}

/// Installing or updating a set of registry packages.
#[derive(Debug)]
pub struct CargoPackageOperation {
    packages: Vec<String>,
    mode: CargoPackageMode,
}

pub open spec fn package_char(c: char) -> bool {
    is_alnum(c) || c == '_' || c == '-'
}

/// An unversioned package name: alphanumeric first, then letters, digits, `_` and `-`.
pub open spec fn valid_package(p: Seq<char>) -> bool {
    p.len() > 0 && is_alnum(p[0]) && forall|k: int| 0 <= k < p.len() ==> package_char(#[trigger] p[k])
}

fn valid_package_exec(p: &[char]) -> (r: bool)
    ensures
        r == valid_package(p@),
{
    if p.len() == 0 || !alnum(p[0]) {
        return false;
    }
    let f = |c: char| -> (b: bool)
        ensures
            b == package_char(c),
        { alnum(c) || c == '_' || c == '-' };
    all_chars(p, f, Ghost(|c: char| package_char(c)))
}

pub const EMPTY_PACKAGES_ERROR: &'static str = "Cargo package sequence must not be empty";

/// The packages from the `k`th on, each valid and not equal to an earlier one.
pub open spec fn packages_from(ps: Seq<Seq<char>>, k: int) -> Result<(), Seq<char>>
    decreases ps.len() - k,
{
    if k < 0 || k >= ps.len() {
        Ok(())
    } else if !valid_package(ps[k]) {
        Err("invalid unversioned Cargo package name: "@ + debug_text(ps[k]))
    } else if exists|j: int| 0 <= j < k && #[trigger] ps[j] == ps[k] {
        Err("duplicate Cargo package name: "@ + debug_text(ps[k]))
    } else {
        packages_from(ps, k + 1)
    }
}

/// The configured packages: a non-empty sequence of distinct valid names.
pub open spec fn packages_check(ps: Seq<Seq<char>>) -> Result<(), Seq<char>> {
    if ps.len() == 0 {
        Err(EMPTY_PACKAGES_ERROR@)
    } else {
        packages_from(ps, 0)
    }
}

fn validate_packages(packages: &Vec<String>) -> (r: Result<(), String>)
    ensures
        match r {
            Ok(_) => packages_check(string_views(packages@)) is Ok,
            Err(e) => packages_check(string_views(packages@)) == Err::<(), Seq<char>>(e@),
        },
{
    if packages.len() == 0 {
        return Err(EMPTY_PACKAGES_ERROR.to_owned());
    }
    let ghost ps = string_views(packages@);
    let mut i: usize = 0;
    while i < packages.len()
        invariant
            i <= ps.len(),
            ps == string_views(packages@),
            ps.len() > 0,
            packages_check(ps) == packages_from(ps, i as int),
        decreases ps.len() - i,
    {
        let p = chars_of(packages[i].as_str());
        assert(p@ == ps[i as int]);
        if !valid_package_exec(&p) {
            return Err(concat("invalid unversioned Cargo package name: ", debug_str(packages[i].as_str()).as_str()));
        }
        let mut j: usize = 0;
        while j < i
            invariant
                j <= i < ps.len(),
                ps == string_views(packages@),
                p@ == ps[i as int],
                valid_package(ps[i as int]),
                packages_check(ps) == packages_from(ps, i as int),
                forall|k: int| 0 <= k < j ==> ps[k] != ps[i as int],
            decreases i - j,
        {
            let q = chars_of(packages[j].as_str());
            if eq_chars(&q, &p) {
                assert(ps[j as int] == ps[i as int]);
                return Err(concat("duplicate Cargo package name: ", debug_str(packages[i].as_str()).as_str()));
            }
            j += 1;
        }
        i += 1;
    }
    Ok(())
}

pub open spec fn mode_name(m: CargoPackageMode) -> Seq<char> {
    match m {
        CargoPackageMode::EnsurePresent => "ensure-present"@,
        CargoPackageMode::UpdateCurrent => "update-current"@,
    }
}

impl CargoPackageOperation {
    /// The operation for `packages` (distinct valid names) in `mode`.
    pub fn new(packages: Vec<String>, mode: CargoPackageMode) -> (r: Result<Self, String>)
        ensures
            match r {
                Ok(op) => packages_check(string_views(packages@)) is Ok && op.packages_view()
                    == string_views(packages@) && op.mode_view() == mode,
                Err(e) => packages_check(string_views(packages@)) == Err::<(), Seq<char>>(e@),
            },
    {
        validate_packages(&packages)?;
        Ok(CargoPackageOperation { packages, mode })
    }

    pub closed spec fn packages_view(&self) -> Seq<Seq<char>> {
        string_views(self.packages@)
    }

    pub closed spec fn mode_view(&self) -> CargoPackageMode {
        self.mode
    }

    /// The words that describe the operation in a plan listing.
    pub fn display_args(&self) -> (r: Vec<String>)
        ensures
            string_views(r@) == seq!["cargo-package-set"@, mode_name(self.mode_view())] + self.packages_view(),
    {
        let mut r: Vec<String> = Vec::new();
        r.push("cargo-package-set".to_owned());
        r.push(
            match self.mode {
                CargoPackageMode::EnsurePresent => "ensure-present".to_owned(),
                CargoPackageMode::UpdateCurrent => "update-current".to_owned(),
            },
        );
        let ghost head = seq!["cargo-package-set"@, mode_name(self.mode)];
        assert(string_views(r@) =~= head + string_views(self.packages@).take(0));
        let mut i: usize = 0;
        while i < self.packages.len()
            invariant
                i <= self.packages@.len(),
                head == seq!["cargo-package-set"@, mode_name(self.mode)],
                string_views(r@) == head + string_views(self.packages@).take(i as int),
            decreases self.packages@.len() - i,
        {
            let ghost before = string_views(r@);
            let p = self.packages[i].clone();
            r.push(p);
            i += 1;
            assert(string_views(r@) =~= before.push(self.packages@[i - 1]@));
            assert(string_views(r@) =~= head + string_views(self.packages@).take(i as int));
        }
        assert(string_views(self.packages@).take(i as int) =~= string_views(self.packages@));
        r
    }

    /// The packages to hand to `cargo-binstall`, and its arguments: in
    /// ensure-present mode the packages not installed yet, in update mode
    /// all of them with `--force`; `None` where there is nothing to do.
    pub fn binstall_args(&self, installed: &Vec<String>) -> (r: Option<Vec<String>>)
        ensures
            match r {
                None => selected_packages(self.packages_view(), self.mode_view(), string_views(installed@)).len() == 0,
                Some(args) => string_views(args@) == (if self.mode_view() == CargoPackageMode::UpdateCurrent {
                    seq!["--no-confirm"@, "--force"@]
                } else {
                    seq!["--no-confirm"@]
                }) + selected_packages(self.packages_view(), self.mode_view(), string_views(installed@))
                    && selected_packages(self.packages_view(), self.mode_view(), string_views(installed@)).len() > 0,
            },
    {
        let selected = select_packages(&self.packages, self.mode, installed);
        if selected.len() == 0 {
            return None;
        }
        let mut args: Vec<String> = Vec::new();
        args.push("--no-confirm".to_owned());
        if self.mode == CargoPackageMode::UpdateCurrent {
            args.push("--force".to_owned());
        }
        let ghost head = string_views(args@);
        let mut i: usize = 0;
        assert(string_views(args@) =~= head + string_views(selected@).take(0));
        while i < selected.len()
            invariant
                i <= selected@.len(),
                string_views(args@) == head + string_views(selected@).take(i as int),
            decreases selected@.len() - i,
        {
            let ghost before = string_views(args@);
            args.push(selected[i].clone());
            i += 1;
            assert(string_views(args@) =~= before.push(selected@[i - 1]@));
            assert(string_views(args@) =~= head + string_views(selected@).take(i as int));
        }
        assert(string_views(selected@).take(i as int) =~= string_views(selected@));
        Some(args)
    }
}

/// The packages that a mutation must install: all of them on update, else
/// those not installed, in configured order.
pub open spec fn selected_packages(ps: Seq<Seq<char>>, mode: CargoPackageMode, installed: Seq<Seq<char>>) -> Seq<Seq<char>> {
    if mode == CargoPackageMode::UpdateCurrent {
        ps
    } else {
        ps.filter(|p: Seq<char>| !installed.contains(p))
    }
}

/// The configured packages that are not installed, in order.
pub open spec fn missing_packages(ps: Seq<Seq<char>>, installed: Seq<Seq<char>>) -> Seq<Seq<char>> {
    ps.filter(|p: Seq<char>| !installed.contains(p))
}

fn contains_string(values: &Vec<String>, s: &str) -> (r: bool)
    ensures
        r == string_views(values@).contains(s@),
{
    let t = chars_of(s);
    let mut i: usize = 0;
    while i < values.len()
        invariant
            i <= values@.len(),
            t@ == s@,
            forall|k: int| 0 <= k < i ==> string_views(values@)[k] != s@,
        decreases values@.len() - i,
    {
        if eq_chars(&chars_of(values[i].as_str()), &t) {
            assert(string_views(values@)[i as int] == s@);
            return true;
        }
        i += 1;
    }
    false
}

/// The packages not in `installed`, in order.
pub fn missing_from(packages: &Vec<String>, installed: &Vec<String>) -> (r: Vec<String>)
    ensures
        string_views(r@) == missing_packages(string_views(packages@), string_views(installed@)),
{
    let ghost iv = string_views(installed@);
    let ghost pred = |p: Seq<char>| !iv.contains(p);
    let mut r: Vec<String> = Vec::new();
    let mut i: usize = 0;
    assert(string_views(packages@).take(0) =~= Seq::<Seq<char>>::empty());
    while i < packages.len()
        invariant
            i <= packages@.len(),
            iv == string_views(installed@),
            pred == (|p: Seq<char>| !iv.contains(p)),
            string_views(r@) == string_views(packages@).take(i as int).filter(pred),
        decreases packages@.len() - i,
    {
        proof {
            string_views(packages@).take(i as int).lemma_filter_push(string_views(packages@)[i as int], pred);
            assert(string_views(packages@).take(i + 1) =~= string_views(packages@).take(i as int).push(string_views(packages@)[i as int]));
        }
        let ghost before = string_views(r@);
        if !contains_string(installed, packages[i].as_str()) {
            r.push(packages[i].clone());
            assert(string_views(r@) =~= before.push(packages@[i as int]@));
        }
        i += 1;
    }
    assert(string_views(packages@).take(i as int) =~= string_views(packages@));
    r
}

fn select_packages(packages: &Vec<String>, mode: CargoPackageMode, installed: &Vec<String>) -> (r: Vec<String>)
    ensures
        string_views(r@) == selected_packages(string_views(packages@), mode, string_views(installed@)),
{
    if mode == CargoPackageMode::UpdateCurrent {
        let mut r: Vec<String> = Vec::new();
        let mut i: usize = 0;
        while i < packages.len()
            invariant
                i <= packages@.len(),
                string_views(r@) == string_views(packages@).take(i as int),
            decreases packages@.len() - i,
        {
            let ghost before = string_views(r@);
            r.push(packages[i].clone());
            i += 1;
            assert(string_views(r@) =~= before.push(packages@[i - 1]@));
            assert(string_views(r@) =~= string_views(packages@).take(i as int));
        }
        assert(string_views(packages@).take(i as int) =~= string_views(packages@));
        r
    } else {
        missing_from(packages, installed)
    }
}

/// After a mutation every configured package must be installed.
pub open spec fn require_result(ps: Seq<Seq<char>>, installed: Seq<Seq<char>>) -> Result<(), Seq<char>> {
    let missing = missing_packages(ps, installed);
    if missing.len() == 0 {
        Ok(())
    } else {
        Err("Cargo package mutation did not install configured packages: "@ + join(missing, ", "@))
    }
}

pub fn require_packages(packages: &Vec<String>, installed: &Vec<String>) -> (r: Result<(), String>)
    ensures
        match r {
            Ok(_) => require_result(string_views(packages@), string_views(installed@)) is Ok,
            Err(e) => require_result(string_views(packages@), string_views(installed@)) == Err::<(), Seq<char>>(e@),
        },
{
    let missing = missing_from(packages, installed);
    if missing.len() > 0 {
        let joined = join_strings(&missing, ", ");
        return Err(concat("Cargo package mutation did not install configured packages: ", joined.as_str()));
    }
    Ok(())
}

/// The parenthesis depth after the first `n` characters, or `None` where a
/// `)` closed more than was opened.
pub open spec fn paren_depth(s: Seq<char>, n: int) -> Option<nat>
    decreases n,
{
    if n <= 0 {
        Some(0)
    } else {
        match paren_depth(s, n - 1) {
            None => None,
            Some(d) => if s[n - 1] == '(' {
                Some(d + 1)
            } else if s[n - 1] == ')' {
                if d == 0 {
                    None
                } else {
                    Some((d - 1) as nat)
                }
            } else {
                Some(d)
            },
        }
    }
}

/// A source as `cargo install --list` displays it: non-empty, without
/// control characters, with balanced parentheses.
pub open spec fn display_source(s: Seq<char>) -> bool {
    s.len() > 0 && !has_control(s) && paren_depth(s, s.len() as int) == Some(0nat)
}

proof fn lemma_paren_none(s: Seq<char>, k: int, n: int)
    requires
        0 <= k <= n,
        paren_depth(s, k) is None,
    ensures
        paren_depth(s, n) is None,
    decreases n - k,
{
    if n > k {
        lemma_paren_none(s, k, n - 1);
    }
}

pub fn valid_display_source(source: &[char]) -> (r: bool)
    ensures
        r == display_source(source@),
{
    if source.len() == 0 {
        return false;
    }
    let f = |c: char| -> (b: bool)
        ensures
            b == is_control(c),
        { control(c) };
    if crate::text::any_chars(source, f, Ghost(|c: char| is_control(c))) {
        return false;
    }
    let mut depth: u64 = 0;
    let mut i: usize = 0;
    while i < source.len()
        invariant
            i <= source@.len(),
            depth <= i,
            paren_depth(source@, i as int) == Some(depth as nat),
        decreases source@.len() - i,
    {
        if source[i] == '(' {
            depth += 1;
        } else if source[i] == ')' {
            if depth == 0 {
                proof {
                    lemma_paren_none(source@, i + 1, source@.len() as int);
                }
                return false;
            }
            depth -= 1;
        }
        i += 1;
    }
    depth == 0
}

pub open spec fn malformed_state(line: Seq<char>) -> Seq<char> {
    "cargo returned malformed installed package state: "@ + debug_text(line)
}

/// The version and the source (if any) of a record `version (source)`;
/// `found` says whether ` (` occurs.
pub open spec fn split_record(record: Seq<char>) -> (Seq<char>, bool, Option<Seq<char>>) {
    match first_occurrence(record, " ("@) {
        None => (record, false, None),
        Some(j) => {
            let rest = record.skip(j + 2);
            (record.take(j), true, if rest.len() > 0 && rest.last() == ')' {
                Some(rest.drop_last())
            } else {
                None
            })
        },
    }
}

/// Whether a `version` or `version (source)` record is well formed, and
/// then whether it comes from the registry (shows no source).
pub open spec fn record_verdict(record: Seq<char>) -> Option<bool> {
    let (version, found, source) = split_record(record);
    if semver_parse(version) is None || (found && source is None) || (source matches Some(src)
        && !display_source(src)) {
        None
    } else {
        Some(source is None)
    }
}

/// One line of `cargo install --list`: an indented binary line is skipped;
/// a package line gives the package where it comes from the registry (no
/// source shown), nothing where it comes from elsewhere.
pub open spec fn line_record(line: Seq<char>) -> Result<Option<Seq<char>>, Seq<char>> {
    if line.len() > 0 && is_space(line[0]) {
        Ok(None)
    } else {
        match first_occurrence(line, " v"@) {
            None => Err(malformed_state(line)),
            Some(k) => {
                let package = line.take(k);
                let vs = line.skip(k + 2);
                if !valid_package(package) || !(vs.len() > 0 && vs.last() == ':') {
                    Err(malformed_state(line))
                } else {
                    match record_verdict(vs.drop_last()) {
                        None => Err(malformed_state(line)),
                        Some(true) => Ok(Some(package)),
                        Some(false) => Ok(None),
                    }
                }
            },
        }
    }
}

/// One line read into the registry packages so far.
pub open spec fn installed_step(acc: Seq<Seq<char>>, line: Seq<char>) -> Result<Seq<Seq<char>>, Seq<char>> {
    if line.len() == 0 {
        Ok(acc)
    } else {
        match line_record(line) {
            Err(e) => Err(e),
            Ok(None) => Ok(acc),
            Ok(Some(p)) => if acc.contains(p) {
                Err("cargo returned duplicate installed registry package: "@ + debug_text(p))
            } else {
                Ok(acc.push(p))
            },
        }
    }
}

/// The registry packages of the first `n` lines; a package listed twice is refused.
pub open spec fn installed_fold(ls: Seq<Seq<char>>, n: int) -> Result<Seq<Seq<char>>, Seq<char>>
    decreases n,
{
    if n <= 0 {
        Ok(Seq::empty())
    } else {
        match installed_fold(ls, n - 1) {
            Err(e) => Err(e),
            Ok(acc) => installed_step(acc, ls[n - 1]),
        }
    }
}

/// The registry packages that `cargo install --list` reports, in order.
pub open spec fn installed_result(output: Seq<u8>) -> Result<Seq<Seq<char>>, Seq<char>> {
    if !vstd::utf8::valid_utf8(output) {
        Err("cargo returned non-UTF-8 installed package state"@)
    } else {
        let ls = lines(vstd::utf8::decode_utf8(output));
        installed_fold(ls, ls.len() as int)
    }
}

proof fn lemma_installed_fold_err(ls: Seq<Seq<char>>, k: int, n: int)
    requires
        0 <= k <= n,
        installed_fold(ls, k) is Err,
    ensures
        installed_fold(ls, n) == installed_fold(ls, k),
    decreases n - k,
{
    if n > k {
        lemma_installed_fold_err(ls, k, n - 1);
    }
}

fn find_text(s: &[char], t: &str) -> (r: Option<usize>)
    ensures
        match r {
            Some(k) => first_occurrence(s@, t@) == Some(k as int) && k + t@.len() <= s@.len(),
            None => first_occurrence(s@, t@) is None,
        },
{
    let tv = chars_of(t);
    match find_seq(s, &tv) {
        Some(k) => {
            proof {
                lemma_first_occurrence_at(s@, t@, k as int);
            }
            Some(k)
        },
        None => None,
    }
}

fn record_verdict_exec(record: &[char]) -> (r: Option<bool>)
    ensures
        r == record_verdict(record@),
{
    proof {
        reveal_strlit(" (");
    }
    let (version, found, source) = match find_text(record, " (") {
        None => (slice_to_vec(record, 0, record.len()), false, None),
        Some(j) => {
            let rn = record.len();
            let rest = slice_to_vec(record, j + 2, rn);
            assert(rest@ =~= record@.skip(j + 2));
            let version = slice_to_vec(record, 0, j);
            assert(version@ =~= record@.take(j as int));
            let source = if rest.len() > 0 && rest[rest.len() - 1] == ')' {
                let rm = rest.len() - 1;
                let src = slice_to_vec(&rest, 0, rm);
                assert(src@ =~= rest@.drop_last());
                Some(src)
            } else {
                None
            };
            (version, true, source)
        },
    };
    assert(version@ == split_record(record@).0 && found == split_record(record@).1) by {
        if first_occurrence(record@, " ("@) is None {
            assert(version@ =~= record@);
        }
    }
    let parsed = parse_semver(string_of(&version).as_str());
    let bad_source = match &source {
        Some(src) => !valid_display_source(src),
        None => false,
    };
    if parsed.is_none() || (found && source.is_none()) || bad_source {
        return None;
    }
    Some(source.is_none())
}

fn line_record_exec(line: &[char]) -> (r: Result<Option<Vec<char>>, String>)
    ensures
        match r {
            Ok(Some(p)) => line_record(line@) == Ok::<Option<Seq<char>>, Seq<char>>(Some(p@)),
            Ok(None) => line_record(line@) == Ok::<Option<Seq<char>>, Seq<char>>(None),
            Err(e) => line_record(line@) == Err::<Option<Seq<char>>, Seq<char>>(e@),
        },
{
    proof {
        reveal_strlit(" v");
    }
    if line.len() > 0 && space(line[0]) {
        return Ok(None);
    }
    let text = string_of(line);
    let malformed = concat("cargo returned malformed installed package state: ", debug_str(text.as_str()).as_str());
    let k = match find_text(line, " v") {
        None => {
            return Err(malformed);
        },
        Some(k) => k,
    };
    let package = slice_to_vec(line, 0, k);
    assert(package@ =~= line@.take(k as int));
    let n = line.len();
    let vs = slice_to_vec(line, k + 2, n);
    assert(vs@ =~= line@.skip(k + 2));
    if !valid_package_exec(&package) || !(vs.len() > 0 && vs[vs.len() - 1] == ':') {
        return Err(malformed);
    }
    let m = vs.len() - 1;
    let record = slice_to_vec(&vs, 0, m);
    assert(record@ =~= vs@.drop_last());
    match record_verdict_exec(&record) {
        None => Err(malformed),
        Some(true) => Ok(Some(package)),
        Some(false) => Ok(None),
    }
}

fn contains_chars(values: &Vec<Vec<char>>, s: &[char]) -> (r: bool)
    ensures
        r == views(values@).contains(s@),
{
    let mut i: usize = 0;
    while i < values.len()
        invariant
            i <= values@.len(),
            forall|k: int| 0 <= k < i ==> views(values@)[k] != s@,
        decreases values@.len() - i,
    {
        if eq_chars(&values[i], s) {
            assert(views(values@)[i as int] == s@);
            return true;
        }
        i += 1;
    }
    false
}

#[verifier::rlimit(40)]
fn installed_step_exec(acc: Vec<Vec<char>>, line: &[char]) -> (r: Result<Vec<Vec<char>>, String>)
    ensures
        match r {
            Ok(next) => installed_step(views(acc@), line@) == Ok::<Seq<Seq<char>>, Seq<char>>(views(next@)),
            Err(e) => installed_step(views(acc@), line@) == Err::<Seq<Seq<char>>, Seq<char>>(e@),
        },
{
    let mut acc = acc;
    if line.len() == 0 {
        return Ok(acc);
    }
    match line_record_exec(line)? {
        None => Ok(acc),
        Some(p) => {
            if contains_chars(&acc, &p) {
                return Err(concat("cargo returned duplicate installed registry package: ", debug_str(string_of(&p).as_str()).as_str()));
            }
            let ghost before = views(acc@);
            let ghost pv = p@;
            acc.push(p);
            assert(views(acc@) =~= before.push(pv));
            Ok(acc)
        },
    }
}

/// The registry packages that `cargo install --list` output reports, in
/// the order listed; packages from other sources are left out.
pub fn installed_packages(output: &[u8]) -> (r: Result<Vec<String>, String>)
    ensures
        match r {
            Ok(ps) => installed_result(output@) == Ok::<Seq<Seq<char>>, Seq<char>>(string_views(ps@)),
            Err(e) => installed_result(output@) == Err::<Seq<Seq<char>>, Seq<char>>(e@),
        },
{
    let text = match utf8_text(output) {
        None => {
            return Err("cargo returned non-UTF-8 installed package state".to_owned());
        },
        Some(t) => t,
    };
    let t = chars_of(text.as_str());
    let ls = lines_of(&t);
    let ghost lv = lines(t@);
    let mut acc: Vec<Vec<char>> = Vec::new();
    let mut i: usize = 0;
    assert(views(acc@) =~= Seq::<Seq<char>>::empty());
    while i < ls.len()
        invariant
            i <= ls@.len(),
            views(ls@) == lv,
            lv == lines(vstd::utf8::decode_utf8(output@)),
            vstd::utf8::valid_utf8(output@),
            installed_fold(lv, i as int) == Ok::<Seq<Seq<char>>, Seq<char>>(views(acc@)),
        decreases ls@.len() - i,
    {
        assert(lv[i as int] == ls@[i as int]@);
        acc = match installed_step_exec(acc, &ls[i]) {
            Ok(next) => next,
            Err(e) => {
                proof {
                    lemma_installed_fold_err(lv, i + 1, lv.len() as int);
                }
                return Err(e);
            },
        };
        i += 1;
    }
    let mut r: Vec<String> = Vec::new();
    let mut j: usize = 0;
    while j < acc.len()
        invariant
            j <= acc@.len(),
            string_views(r@) == views(acc@).take(j as int),
        decreases acc@.len() - j,
    {
        let ghost before = string_views(r@);
        r.push(string_of(&acc[j]));
        j += 1;
        assert(string_views(r@) =~= before.push(acc@[j - 1]@));
        assert(string_views(r@) =~= views(acc@).take(j as int));
    }
    assert(views(acc@).take(j as int) =~= views(acc@));
    Ok(r)
}

/// Nothing is missing exactly when every configured package is installed.
pub proof fn lemma_nothing_missing_iff_all_installed(ps: Seq<Seq<char>>, installed: Seq<Seq<char>>)
    ensures
        missing_packages(ps, installed).len() == 0 <==> forall|i: int| 0 <= i < ps.len() ==> installed.contains(
            #[trigger] ps[i],
        ),
{
    let pred = |p: Seq<char>| !installed.contains(p);
    if forall|i: int| 0 <= i < ps.len() ==> installed.contains(#[trigger] ps[i]) {
        assert(ps.all(|x: Seq<char>| !pred(x)));
        ps.lemma_all_neg_filter_empty(pred);
    } else {
        let i = choose|i: int| 0 <= i < ps.len() && !installed.contains(#[trigger] ps[i]);
        ps.lemma_filter_contains(pred, i);
    }
}

/// After a mutation, the check passes exactly when every configured
/// package is installed.
pub proof fn lemma_require_iff_all_installed(ps: Seq<Seq<char>>, installed: Seq<Seq<char>>)
    ensures
        require_result(ps, installed) is Ok <==> forall|i: int| 0 <= i < ps.len() ==> installed.contains(
            #[trigger] ps[i],
        ),
{
    lemma_nothing_missing_iff_all_installed(ps, installed);
}

/// Every configured package is installed already or selected for the
/// mutation, whatever the mode.
pub proof fn lemma_selection_covers_packages(ps: Seq<Seq<char>>, mode: CargoPackageMode, installed: Seq<Seq<char>>)
    ensures
        forall|i: int| 0 <= i < ps.len() ==> installed.contains(#[trigger] ps[i]) || selected_packages(ps, mode, installed).contains(ps[i]),
{
    let pred = |p: Seq<char>| !installed.contains(p);
    assert forall|i: int| 0 <= i < ps.len() implies installed.contains(#[trigger] ps[i]) || selected_packages(
        ps,
        mode,
        installed,
    ).contains(ps[i]) by {
        if mode == CargoPackageMode::UpdateCurrent {
            assert(ps[i] == ps[i]);
        } else if !installed.contains(ps[i]) {
            ps.lemma_filter_contains(pred, i);
        }
    }
}

/// Installing what is missing converges: once the missing packages are
/// installed too, nothing is missing, so a second run installs nothing.
pub proof fn lemma_install_missing_converges(ps: Seq<Seq<char>>, installed: Seq<Seq<char>>)
    ensures
        missing_packages(ps, installed + missing_packages(ps, installed)).len() == 0,
{
    let pred = |p: Seq<char>| !installed.contains(p);
    let missing = missing_packages(ps, installed);
    let after = installed + missing;
    assert forall|i: int| 0 <= i < ps.len() implies after.contains(#[trigger] ps[i]) by {
        if installed.contains(ps[i]) {
            let k = choose|k: int| 0 <= k < installed.len() && installed[k] == ps[i];
            assert(after[k] == ps[i]);
        } else {
            ps.lemma_filter_contains(pred, i);
            assert(missing.contains(ps[i]));
            let k = choose|k: int| 0 <= k < missing.len() && missing[k] == ps[i];
            assert(after[installed.len() + k] == ps[i]);
        }
    }
    lemma_nothing_missing_iff_all_installed(ps, after);
}

} // verus!
