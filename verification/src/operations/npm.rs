//! Global npm packages installed under the managed Node: which names may be
//! configured, what `npm list --global --json` reports, and what must follow.
use vstd::prelude::*;
use crate::json::{as_items, as_text, member, Json};
use crate::operations::cargo::{missing_from, missing_packages};
use crate::operations::cargo_binstall::{numeric_version, numeric_version_exec};
use crate::text::{
    all_chars, chars_of, concat, concat3, contains_char, contains_control, debug_str, debug_text,
    digit, eq_chars, has_control, is_digit, is_lower, join, join_strings, lower, slice_to_vec,
    split, split_chars, string_of, string_views, utf8_text, views,
};

verus! {

#[derive(Clone, Copy, Debug, PartialEq, Eq, Structural)]
pub enum NpmPackageMode {
    EnsurePresent,
    UpdateCurrent,
}

/// Installing or updating a set of global npm packages.
#[derive(Debug)]
pub struct NpmPackageOperation {
    packages: Vec<String>,
    mode: NpmPackageMode,
}

pub open spec fn part_char(c: char) -> bool {
    is_lower(c) || is_digit(c) || c == '.' || c == '_' || c == '-'
}

/// One part of a package name: a lowercase letter or digit, then lowercase
/// letters, digits, `.`, `_` and `-`.
pub open spec fn valid_part(p: Seq<char>) -> bool {
    p.len() > 0 && (is_lower(p[0]) || is_digit(p[0])) && forall|k: int| 0 <= k < p.len() ==> part_char(#[trigger] p[k])
}

/// An unversioned lowercase package name, `name` or `@scope/name`.
pub open spec fn valid_package(p: Seq<char>) -> bool {
    if p.len() > 0 && p[0] == '@' {
        let parts = split(p.drop_first(), '/');
        parts.len() == 2 && valid_part(parts[0]) && valid_part(parts[1])
    } else {
        !p.contains('/') && valid_part(p)
    }
}

fn valid_part_exec(p: &[char]) -> (r: bool)
    ensures
        r == valid_part(p@),
{
    if p.len() == 0 || !(lower(p[0]) || digit(p[0])) {
        return false;
    }
    let f = |c: char| -> (b: bool)
        ensures
            b == part_char(c),
        { lower(c) || digit(c) || c == '.' || c == '_' || c == '-' };
    all_chars(p, f, Ghost(|c: char| part_char(c)))
}

pub fn valid_package_exec(p: &[char]) -> (r: bool)
    ensures
        r == valid_package(p@),
{
    if p.len() > 0 && p[0] == '@' {
        let rest = slice_to_vec(p, 1, p.len());
        assert(rest@ =~= p@.drop_first());
        let parts = split_chars(&rest, '/');
        if parts.len() != 2 {
            return false;
        }
        assert(views(parts@)[0] == parts@[0]@);
        assert(views(parts@)[1] == parts@[1]@);
        valid_part_exec(&parts[0]) && valid_part_exec(&parts[1])
    } else {
        !contains_char(p, '/') && valid_part_exec(p)
    }
}

pub const EMPTY_PACKAGES_ERROR: &'static str = "npm package sequence must not be empty";

pub open spec fn packages_from(ps: Seq<Seq<char>>, k: int) -> Result<(), Seq<char>>
    decreases ps.len() - k,
{
    if k < 0 || k >= ps.len() {
        Ok(())
    } else if !valid_package(ps[k]) {
        Err("invalid unversioned lowercase npm package name: "@ + debug_text(ps[k]))
    } else if exists|j: int| 0 <= j < k && #[trigger] ps[j] == ps[k] {
        Err("duplicate npm package name: "@ + debug_text(ps[k]))
    } else {
        packages_from(ps, k + 1)
    }
}

/// The configured packages: a non-empty sequence of distinct valid names.
pub open spec fn packages_check(ps: Seq<Seq<char>>) -> Result<(), Seq<char>> {
    if ps.len() == 0 {
        Err(EMPTY_PACKAGES_ERROR@)
    } else {
        packages_from(ps, 0)
    }
}

fn validate_packages(packages: &Vec<String>) -> (r: Result<(), String>)
    ensures
        match r {
            Ok(_) => packages_check(string_views(packages@)) is Ok,
            Err(e) => packages_check(string_views(packages@)) == Err::<(), Seq<char>>(e@),
        },
{
    if packages.len() == 0 {
        return Err(EMPTY_PACKAGES_ERROR.to_owned());
    }
    let ghost ps = string_views(packages@);
    let mut i: usize = 0;
    while i < packages.len()
        invariant
            i <= ps.len(),
            ps == string_views(packages@),
            ps.len() > 0,
            packages_check(ps) == packages_from(ps, i as int),
        decreases ps.len() - i,
    {
        let p = chars_of(packages[i].as_str());
        assert(p@ == ps[i as int]);
        if !valid_package_exec(&p) {
            return Err(concat("invalid unversioned lowercase npm package name: ", debug_str(packages[i].as_str()).as_str()));
        }
        let mut j: usize = 0;
        while j < i
            invariant
                j <= i < ps.len(),
                ps == string_views(packages@),
                p@ == ps[i as int],
                valid_package(ps[i as int]),
                packages_check(ps) == packages_from(ps, i as int),
                forall|k: int| 0 <= k < j ==> ps[k] != ps[i as int],
            decreases i - j,
        {
            let q = chars_of(packages[j].as_str());
            if eq_chars(&q, &p) {
                assert(ps[j as int] == ps[i as int]);
                return Err(concat("duplicate npm package name: ", debug_str(packages[i].as_str()).as_str()));
            }
            j += 1;
        }
        i += 1;
    }
    Ok(())
}

pub open spec fn mode_name(m: NpmPackageMode) -> Seq<char> {
    match m {
        NpmPackageMode::EnsurePresent => "ensure-present"@,
        NpmPackageMode::UpdateCurrent => "update-current"@,
    }
}

impl NpmPackageOperation {
    /// The operation for `packages` (distinct valid names) in `mode`.
    pub fn new(packages: Vec<String>, mode: NpmPackageMode) -> (r: Result<Self, String>)
        ensures
            match r {
                Ok(op) => packages_check(string_views(packages@)) is Ok && op.packages_view()
                    == string_views(packages@) && op.mode_view() == mode,
                Err(e) => packages_check(string_views(packages@)) == Err::<(), Seq<char>>(e@),
            },
    {
        validate_packages(&packages)?;
        Ok(NpmPackageOperation { packages, mode })
    }

    pub closed spec fn packages_view(&self) -> Seq<Seq<char>> {
        string_views(self.packages@)
    }

    pub closed spec fn mode_view(&self) -> NpmPackageMode {
        self.mode
    }

    /// The words that describe the operation in a plan listing.
    pub fn display_args(&self) -> (r: Vec<String>)
        ensures
            string_views(r@) == seq!["npm-package-set"@, mode_name(self.mode_view())] + self.packages_view(),
    {
        let mut r: Vec<String> = Vec::new();
        r.push("npm-package-set".to_owned());
        r.push(
            match self.mode {
                NpmPackageMode::EnsurePresent => "ensure-present".to_owned(),
                NpmPackageMode::UpdateCurrent => "update-current".to_owned(),
            },
        );
        let ghost head = seq!["npm-package-set"@, mode_name(self.mode)];
        assert(string_views(r@) =~= head + string_views(self.packages@).take(0));
        let mut i: usize = 0;
        while i < self.packages.len()
            invariant
                i <= self.packages@.len(),
                head == seq!["npm-package-set"@, mode_name(self.mode)],
                string_views(r@) == head + string_views(self.packages@).take(i as int),
            decreases self.packages@.len() - i,
        {
            let ghost before = string_views(r@);
            let p = self.packages[i].clone();
            r.push(p);
            i += 1;
            assert(string_views(r@) =~= before.push(self.packages@[i - 1]@));
            assert(string_views(r@) =~= head + string_views(self.packages@).take(i as int));
        }
        assert(string_views(self.packages@).take(i as int) =~= string_views(self.packages@));
        r
    }
}

/// A Node version as `fnm default` prints it: `v` and three numbers without leading zeros.
pub open spec fn node_version(v: Seq<char>) -> bool {
    v.len() > 0 && v[0] == 'v' && numeric_version(v.drop_first())
}

pub fn valid_node_version(version: &[char]) -> (r: bool)
    ensures
        r == node_version(version@),
{
    if version.len() == 0 || version[0] != 'v' {
        return false;
    }
    let rest = slice_to_vec(version, 1, version.len());
    assert(rest@ =~= version@.drop_first());
    numeric_version_exec(&rest)
}

/// The default Node version that `fnm default` reports.
pub open spec fn default_version_result(output: Seq<u8>) -> Result<Seq<char>, Seq<char>> {
    if !vstd::utf8::valid_utf8(output) {
        Err("fnm returned non-UTF-8 default Node version"@)
    } else {
        let t = vstd::utf8::decode_utf8(output);
        let v = if t.len() > 0 && t.last() == '\n' {
            t.drop_last()
        } else {
            t
        };
        if v.contains('\n') || v.contains('\r') || !node_version(v) {
            Err("fnm returned invalid default Node version: "@ + debug_text(v))
        } else {
            Ok(v)
        }
    }
}

pub fn selected_version(output: &[u8]) -> (r: Result<String, String>)
    ensures
        match r {
            Ok(v) => default_version_result(output@) == Ok::<Seq<char>, Seq<char>>(v@),
            Err(e) => default_version_result(output@) == Err::<Seq<char>, Seq<char>>(e@),
        },
{
    let text = match utf8_text(output) {
        None => {
            return Err("fnm returned non-UTF-8 default Node version".to_owned());
        },
        Some(t) => t,
    };
    let mut v = chars_of(text.as_str());
    if v.len() > 0 && v[v.len() - 1] == '\n' {
        v.pop();
    }
    let s = string_of(&v);
    if contains_char(&v, '\n') || contains_char(&v, '\r') || !valid_node_version(&v) {
        return Err(concat("fnm returned invalid default Node version: ", debug_str(s.as_str()).as_str()));
    }
    Ok(s)
}

/// The `problems` of an object, if present, must be an empty array.
pub open spec fn problems_check(v: Json, description: Seq<char>) -> Result<(), Seq<char>> {
    match member(v, "problems"@) {
        None => Ok(()),
        Some(p) => match as_items(p) {
            None => Err(description + " problems must be a JSON array"@),
            Some(items) => if items.len() > 0 {
                Err(description + " reported problems"@)
            } else {
                Ok(())
            },
        },
    }
}

fn reject_problem_state(v: &Json, description: &str) -> (r: Result<(), String>)
    ensures
        match r {
            Ok(_) => problems_check(*v, description@) is Ok,
            Err(e) => problems_check(*v, description@) == Err::<(), Seq<char>>(e@),
        },
{
    match v.get("problems") {
        None => Ok(()),
        Some(p) => match p.as_array() {
            None => Err(concat(description, " problems must be a JSON array")),
            Some(items) => if items.len() > 0 {
                Err(concat(description, " reported problems"))
            } else {
                Ok(())
            },
        },
    }
}

pub open spec fn package_label(package: Seq<char>) -> Seq<char> {
    "npm global package "@ + debug_text(package)
}

/// A flag that, where present, must be `false`.
pub open spec fn flag_set(metadata: Json, flag: Seq<char>) -> bool {
    member(metadata, flag) matches Some(f) && f != Json::Bool(false)
}

/// The rules on one dependency entry of the global package state.
pub open spec fn dependency_check(package: Seq<char>, metadata: Json) -> Result<(), Seq<char>> {
    if !crate::operations::npm::valid_package(package) {
        Err("npm returned invalid global package name: "@ + debug_text(package))
    } else if !(metadata is Object) {
        Err("npm global package metadata for "@ + debug_text(package) + " must be a JSON object"@)
    } else {
        match problems_check(metadata, package_label(package)) {
            Err(e) => Err(e),
            Ok(_) => if member(metadata, "error"@) is Some {
                Err(package_label(package) + " reported an error"@)
            } else {
                match (match member(metadata, "version"@) {
                    Some(v) => as_text(v),
                    None => None,
                }) {
                    None => Err(package_label(package) + " must report a string version"@),
                    Some(version) => if version.len() == 0 || has_control(version) {
                        Err(package_label(package) + " reported an invalid version"@)
                    } else if flag_set(metadata, "invalid"@) {
                        Err(package_label(package) + " reported invalid state"@)
                    } else if flag_set(metadata, "missing"@) {
                        Err(package_label(package) + " reported missing state"@)
                    } else {
                        Ok(())
                    },
                }
            },
        }
    }
}

pub open spec fn dependency_views(ds: Seq<(String, Json)>) -> Seq<(Seq<char>, Json)> {
    ds.map_values(|d: (String, Json)| (d.0@, d.1))
}

/// The installed global packages that the state reports, in order.
pub open spec fn installed_result(root: Json) -> Result<Seq<Seq<char>>, Seq<char>> {
    if !(root is Object) {
        Err("npm global package state must be a JSON object"@)
    } else {
        match problems_check(root, "npm global package state"@) {
            Err(e) => Err(e),
            Ok(_) => if member(root, "error"@) is Some {
                Err("npm global package state reported an error"@)
            } else {
                match member(root, "dependencies"@) {
                    None => Ok(Seq::empty()),
                    Some(Json::Object(ds)) => {
                        let dv = dependency_views(ds@);
                        match crate::text::first_error(Seq::new(dv.len(), |i: int| dependency_check(dv[i].0, dv[i].1))) {
                            Err(e) => Err(e),
                            Ok(_) => Ok(dv.map_values(|d: (Seq<char>, Json)| d.0)),
                        }
                    },
                    Some(_) => Err("npm global package state dependencies must be a JSON object"@),
                }
            },
        }
    }
}

fn flag_set_exec(metadata: &Json, flag: &str) -> (r: bool)
    ensures
        r == flag_set(*metadata, flag@),
{
    match metadata.get(flag) {
        None => false,
        Some(Json::Bool(false)) => false,
        Some(_) => true,
    }
}

fn check_dependency(package: &str, metadata: &Json) -> (r: Result<(), String>)
    ensures
        match r {
            Ok(_) => dependency_check(package@, *metadata) is Ok,
            Err(e) => dependency_check(package@, *metadata) == Err::<(), Seq<char>>(e@),
        },
{
    let quoted = debug_str(package);
    if !valid_package_exec(&chars_of(package)) {
        return Err(concat("npm returned invalid global package name: ", quoted.as_str()));
    }
    match metadata {
        Json::Object(_) => {},
        _ => {
            return Err(concat3("npm global package metadata for ", quoted.as_str(), " must be a JSON object"));
        },
    }
    let label = concat("npm global package ", quoted.as_str());
    reject_problem_state(metadata, label.as_str())?;
    if metadata.get("error").is_some() {
        return Err(concat(label.as_str(), " reported an error"));
    }
    let version = match metadata.get("version") {
        None => None,
        Some(v) => v.as_str(),
    };
    let version = match version {
        None => {
            return Err(concat(label.as_str(), " must report a string version"));
        },
        Some(v) => v,
    };
    if chars_of(version).len() == 0 || contains_control(version) {
        return Err(concat(label.as_str(), " reported an invalid version"));
    }
    if flag_set_exec(metadata, "invalid") {
        return Err(concat(label.as_str(), " reported invalid state"));
    }
    if flag_set_exec(metadata, "missing") {
        return Err(concat(label.as_str(), " reported missing state"));
    }
    Ok(())
}

/// The global packages installed under the managed Node, from the JSON of
/// `npm list --global --depth=0 --json`.
pub fn installed_packages(root: &Json) -> (r: Result<Vec<String>, String>)
    ensures
        match r {
            Ok(ps) => installed_result(*root) == Ok::<Seq<Seq<char>>, Seq<char>>(string_views(ps@)),
            Err(e) => installed_result(*root) == Err::<Seq<Seq<char>>, Seq<char>>(e@),
        },
{
    match root {
        Json::Object(_) => {},
        _ => {
            return Err("npm global package state must be a JSON object".to_owned());
        },
    }
    reject_problem_state(root, "npm global package state")?;
    if root.get("error").is_some() {
        return Err("npm global package state reported an error".to_owned());
    }
    let ds = match root.get("dependencies") {
        None => {
            let none: Vec<String> = Vec::new();
            assert(string_views(none@) =~= Seq::<Seq<char>>::empty());
            return Ok(none);
        },
        Some(Json::Object(ds)) => ds,
        Some(_) => {
            return Err("npm global package state dependencies must be a JSON object".to_owned());
        },
    };
    let ghost dv = dependency_views(ds@);
    let ghost cs = Seq::new(dv.len(), |i: int| dependency_check(dv[i].0, dv[i].1));
    let mut r: Vec<String> = Vec::new();
    let mut i: usize = 0;
    assert(cs.take(0) =~= Seq::<Result<(), Seq<char>>>::empty());
    while i < ds.len()
        invariant
            i <= ds@.len(),
            dv == dependency_views(ds@),
            cs == Seq::new(dv.len(), |i: int| dependency_check(dv[i].0, dv[i].1)),
            crate::text::first_error(cs.take(i as int)) is Ok,
            string_views(r@) == dv.map_values(|d: (Seq<char>, Json)| d.0).take(i as int),
            root is Object,
            problems_check(*root, "npm global package state"@) is Ok,
            member(*root, "error"@) is None,
            member(*root, "dependencies"@) == Some(Json::Object(*ds)),
        decreases ds@.len() - i,
    {
        proof {
            crate::text::lemma_first_error_step(cs, i as int);
        }
        if let Err(e) = check_dependency(ds[i].0.as_str(), &ds[i].1) {
            proof {
                crate::text::lemma_first_error_stop(cs, i + 1);
            }
            return Err(e);
        }
        let ghost before = string_views(r@);
        r.push(ds[i].0.clone());
        i += 1;
        assert(string_views(r@) =~= before.push(ds@[i - 1].0@));
        assert(string_views(r@) =~= dv.map_values(|d: (Seq<char>, Json)| d.0).take(i as int));
    }
    proof {
        crate::text::lemma_first_error_whole(cs);
    }
    assert(dv.map_values(|d: (Seq<char>, Json)| d.0).take(i as int) =~= dv.map_values(|d: (Seq<char>, Json)| d.0));
    Ok(r)
}

/// After a mutation every configured package must be installed.
pub open spec fn require_result(ps: Seq<Seq<char>>, installed: Seq<Seq<char>>) -> Result<(), Seq<char>> {
    let missing = missing_packages(ps, installed);
    if missing.len() == 0 {
        Ok(())
    } else {
        Err("npm package mutation did not install configured packages: "@ + join(missing, ", "@))
    }
}

pub fn require_packages(packages: &Vec<String>, installed: &Vec<String>) -> (r: Result<(), String>)
    ensures
        match r {
            Ok(_) => require_result(string_views(packages@), string_views(installed@)) is Ok,
            Err(e) => require_result(string_views(packages@), string_views(installed@)) == Err::<(), Seq<char>>(e@),
        },
{
    let missing = missing_from(packages, installed);
    if missing.len() > 0 {
        let joined = join_strings(&missing, ", ");
        return Err(concat("npm package mutation did not install configured packages: ", joined.as_str()));
    }
    Ok(())
}

} // verus!
