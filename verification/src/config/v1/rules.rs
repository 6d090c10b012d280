//! The value rules of the schema 1 configuration. Each rule checks one
//! configured string and, where the string breaks it, names the rule at
//! the value's path.
use vstd::prelude::*;
use crate::config::model::rules::{
    all_in, docker_size_ok, duration_ok, flatpak_id_ok, flatpak_ok, github_repository_ok,
    gnome_uuid_ok, led_by, led_ok, nightly_date, nightly_date_ok, not_only_dots, npm_name_ok,
    npm_ok, numeric_ok, numeric_version_ok, pattern_forbidden, repeats_earlier, rest_in,
    some_nonzero, then, CharClass,
};
use crate::domain::has_substitution;
use crate::text::{
    alnum, chars_of, concat, concat3, contains_char, contains_control, contains_str, debug_str,
    debug_text, decimal, decimal_text, element_path, eq_str, first_error, has_control, has_prefix,
    indexed, lemma_first_error_step, lemma_first_error_stop, lemma_first_error_whole, same_outcome,
    slice_to_vec, split, split_chars, string_views, trim, trim_chars,
};

verus! {

pub const NON_EMPTY: &'static str = ": must be a non-empty string";

pub const NOT_LITERAL: &'static str = ": must be a literal value without interpolation or substitution";

/// A failure reported at `path`.
pub open spec fn fails_at(ok: bool, path: Seq<char>, detail: Seq<char>) -> Result<(), Seq<char>> {
    if ok {
        Ok(())
    } else {
        Err(path + detail)
    }
}

fn judge_at(ok: bool, path: &str, detail: &str) -> (r: Result<(), String>)
    ensures
        same_outcome(r, fails_at(ok, path@, detail@)),
{
    if ok {
        Ok(())
    } else {
        Err(concat(path, detail))
    }
}

/// A text that is not blank (as `str::trim` leaves it).
pub open spec fn non_empty_check(v: Seq<char>, path: Seq<char>) -> Result<(), Seq<char>> {
    fails_at(trim(v).len() > 0, path, NON_EMPTY@)
}

pub fn validate_non_empty(value: &str, path: &str) -> (r: Result<(), String>)
    ensures
        same_outcome(r, non_empty_check(value@, path@)),
{
    let v = chars_of(value);
    judge_at(trim_chars(&v).len() > 0, path, NON_EMPTY)
}

pub(crate) fn substituted(v: &Vec<char>) -> (r: bool)
    ensures
        r == has_substitution(v@),
{
    contains_char(v, '$') || contains_str(v, "{{") || contains_str(v, "{%")
}

/// A literal value: not blank, on one line, and without substitution.
pub open spec fn literal_check(v: Seq<char>, path: Seq<char>) -> Result<(), Seq<char>> {
    then(non_empty_check(v, path),
    fails_at(!v.contains('\n') && !v.contains('\r') && !has_substitution(v), path, NOT_LITERAL@))
}

pub fn validate_literal(value: &str, path: &str) -> (r: Result<(), String>)
    ensures
        same_outcome(r, literal_check(value@, path@)),
{
    validate_non_empty(value, path)?;
    let v = chars_of(value);
    judge_at(!contains_char(&v, '\n') && !contains_char(&v, '\r') && !substituted(&v), path, NOT_LITERAL)
}

/// The element at `i` of an optional list of literals: literal, and not
/// repeating an earlier element.
pub open spec fn unique_entry_check(vs: Seq<Seq<char>>, path: Seq<char>, i: int) -> Result<(), Seq<char>> {
    let item = element_path(path, i);
    then(literal_check(vs[i], item),
    if repeats_earlier(vs, i) {
        Err(item + ": duplicate value "@ + debug_text(vs[i]))
    } else {
        Ok(())
    })
}

pub open spec fn unique_strings_check(vs: Seq<Seq<char>>, path: Seq<char>) -> Result<(), Seq<char>> {
    first_error(Seq::new(vs.len(), |i: int| unique_entry_check(vs, path, i)))
}

pub fn validate_unique_strings(values: &Vec<String>, path: &str) -> (r: Result<(), String>)
    ensures
        same_outcome(r, unique_strings_check(string_views(values@), path@)),
{
    let ghost vs = string_views(values@);
    let ghost cs = Seq::new(vs.len(), |i: int| unique_entry_check(vs, path@, i));
    let mut i: usize = 0;
    assert(cs.take(0) =~= Seq::<Result<(), Seq<char>>>::empty());
    while i < values.len()
        invariant
            i <= values@.len(),
            vs == string_views(values@),
            cs == Seq::new(vs.len(), |i: int| unique_entry_check(vs, path@, i)),
            first_error(cs.take(i as int)) is Ok,
        decreases values@.len() - i,
    {
        proof {
            lemma_first_error_step(cs, i as int);
        }
        let item = indexed(path, i);
        assert(values@[i as int]@ == vs[i as int]);
        if let Err(e) = validate_literal(values[i].as_str(), item.as_str()) {
            proof {
                lemma_first_error_stop(cs, i + 1);
            }
            return Err(e);
        }
        if crate::config::model::rules::repeated_before(values, i) {
            proof {
                lemma_first_error_stop(cs, i + 1);
            }
            let quoted = debug_str(values[i].as_str());
            return Err(concat3(item.as_str(), ": duplicate value ", quoted.as_str()));
        }
        i += 1;
    }
    proof {
        lemma_first_error_whole(cs);
    }
    Ok(())
}

pub open spec fn required_unique_check(vs: Seq<Seq<char>>, path: Seq<char>) -> Result<(), Seq<char>> {
    if vs.len() == 0 {
        Err(path + ": must be a non-empty sequence"@)
    } else {
        unique_strings_check(vs, path)
    }
}

pub fn validate_required_unique_strings(values: &Vec<String>, path: &str) -> (r: Result<(), String>)
    ensures
        same_outcome(r, required_unique_check(string_views(values@), path@)),
{
    if values.len() == 0 {
        return Err(concat(path, ": must be a non-empty sequence"));
    }
    validate_unique_strings(values, path)
}

// ------------------------------------------------------------ the rules on one value

/// The rules that schema 1 holds configured values to.
#[derive(Clone, Copy, Debug, PartialEq, Eq, Structural)]
pub enum Rule {
    DebianPackage,
    CargoPackage,
    NpmPackage,
    FlatpakId,
    DirectoryName,
    Executable,
    DefinitionName,
    VsCodeExtension,
    GnomeUuid,
    Wildcard,
}

pub const DEBIAN_RULE: &'static str = ": must be a Debian package name starting with a lowercase ASCII letter or digit and containing only lowercase ASCII letters, digits, '+', '.', or '-'";

pub const CARGO_RULE: &'static str = ": must be an unversioned Cargo package name containing only ASCII alphanumerics, '_', or '-' and starting alphanumeric";

pub const NPM_RULE: &'static str = ": must be an unversioned lowercase npm name or @scope/name";

pub const FLATPAK_RULE: &'static str = ": must be a canonical Flatpak ID with at least three dot-separated ASCII identifier segments";

pub const DIRECTORY_RULE: &'static str = ": must be one directory name below the dotfiles root, not a path";

pub const EXECUTABLE_RULE: &'static str = ": must start with an ASCII alphanumeric and contain only ASCII alphanumerics, '.', '_', '+', or '-'";

pub const DEFINITION_RULE: &'static str = ": must start with an ASCII alphanumeric and contain only ASCII alphanumerics, '.', '_', or '-'";

pub const VSCODE_RULE: &'static str = ": must be a publisher.extension identifier";

pub const UUID_RULE: &'static str = ": must be an exact GNOME extension UUID containing one '@'";

pub const WILDCARD_RULE: &'static str = ": must be an anchored filename wildcard using only '*' and '?' operators, without paths or substitutions";

/// A directory name: not `.` or `..`, and without `/` or `\`.
pub open spec fn directory_ok(v: Seq<char>) -> bool {
    v != "."@ && v != ".."@ && !v.contains('/') && !v.contains('\\')
}

/// The characters that a schema 1 wildcard may not hold.
pub open spec fn wildcard_forbidden(c: char) -> bool {
    pattern_forbidden(c) || c == '(' || c == ')'
}

/// A wildcard of schema 1: with `*` or `?`, none of the forbidden
/// characters, no control character and no substitution.
pub open spec fn wildcard_ok(v: Seq<char>) -> bool {
    &&& (v.contains('*') || v.contains('?'))
    &&& !(exists|i: int| 0 <= i < v.len() && wildcard_forbidden(#[trigger] v[i]))
    &&& !has_control(v)
    &&& !has_substitution(v)
}

/// Two identifiers around one `.`.
pub open spec fn vscode_extension_ok(v: Seq<char>) -> bool {
    let parts = split(v, '.');
    parts.len() == 2 && parts[0].len() > 0 && rest_in(parts[0], 0, CharClass::Name) && parts[1].len() > 0
        && rest_in(parts[1], 0, CharClass::Name)
}

pub open spec fn rule_check(rule: Rule, v: Seq<char>, path: Seq<char>) -> Result<(), Seq<char>> {
    match rule {
        Rule::DebianPackage => then(literal_check(v, path), fails_at(led_by(v, false, CharClass::Debian), path, DEBIAN_RULE@)),
        Rule::CargoPackage => then(literal_check(v, path), fails_at(led_by(v, true, CharClass::Cargo), path, CARGO_RULE@)),
        Rule::NpmPackage => then(literal_check(v, path), fails_at(npm_name_ok(v), path, NPM_RULE@)),
        Rule::FlatpakId => then(literal_check(v, path), fails_at(flatpak_id_ok(v), path, FLATPAK_RULE@)),
        Rule::DirectoryName => then(literal_check(v, path), fails_at(directory_ok(v), path, DIRECTORY_RULE@)),
        Rule::Executable => fails_at(led_by(v, true, CharClass::Executable), path, EXECUTABLE_RULE@),
        Rule::DefinitionName => then(literal_check(v, path), fails_at(led_by(v, true, CharClass::Name), path, DEFINITION_RULE@)),
        Rule::VsCodeExtension => fails_at(vscode_extension_ok(v), path, VSCODE_RULE@),
        Rule::GnomeUuid => fails_at(gnome_uuid_ok(v), path, UUID_RULE@),
        Rule::Wildcard => then(non_empty_check(v, path), fails_at(wildcard_ok(v), path, WILDCARD_RULE@)),
    }
}

fn any_wildcard_forbidden(v: &Vec<char>) -> (r: bool)
    ensures
        r == exists|i: int| 0 <= i < v@.len() && wildcard_forbidden(#[trigger] v@[i]),
{
    let mut i: usize = 0;
    while i < v.len()
        invariant
            i <= v@.len(),
            forall|j: int| 0 <= j < i ==> !wildcard_forbidden(#[trigger] v@[j]),
        decreases v@.len() - i,
    {
        let c = v[i];
        if c == '/' || c == '\\' || c == '[' || c == ']' || c == '{' || c == '}' || c == '$' || c == '`' || c == '('
            || c == ')' {
            return true;
        }
        i += 1;
    }
    false
}

fn identifier(p: &Vec<char>) -> (r: bool)
    ensures
        r == (p@.len() > 0 && rest_in(p@, 0, CharClass::Name)),
{
    p.len() > 0 && all_in(p, 0, CharClass::Name)
}

/// Checks one value by the rule.
pub fn check_rule(rule: Rule, value: &str, path: &str) -> (r: Result<(), String>)
    ensures
        same_outcome(r, rule_check(rule, value@, path@)),
{
    let v = chars_of(value);
    match rule {
        Rule::DebianPackage => {
            validate_literal(value, path)?;
            judge_at(led_ok(&v, false, CharClass::Debian), path, DEBIAN_RULE)
        },
        Rule::CargoPackage => {
            validate_literal(value, path)?;
            judge_at(led_ok(&v, true, CharClass::Cargo), path, CARGO_RULE)
        },
        Rule::NpmPackage => {
            validate_literal(value, path)?;
            judge_at(npm_ok(&v), path, NPM_RULE)
        },
        Rule::FlatpakId => {
            validate_literal(value, path)?;
            judge_at(flatpak_ok(&v), path, FLATPAK_RULE)
        },
        Rule::DirectoryName => {
            validate_literal(value, path)?;
            let ok = !eq_str(&v, ".") && !eq_str(&v, "..") && !contains_char(&v, '/') && !contains_char(&v, '\\');
            judge_at(ok, path, DIRECTORY_RULE)
        },
        Rule::Executable => judge_at(led_ok(&v, true, CharClass::Executable), path, EXECUTABLE_RULE),
        Rule::DefinitionName => {
            validate_literal(value, path)?;
            judge_at(led_ok(&v, true, CharClass::Name), path, DEFINITION_RULE)
        },
        Rule::VsCodeExtension => {
            let parts = split_chars(&v, '.');
            let ok = parts.len() == 2 && identifier(&parts[0]) && identifier(&parts[1]);
            judge_at(ok, path, VSCODE_RULE)
        },
        Rule::GnomeUuid => {
            let parts = split_chars(&v, '@');
            let ok = parts.len() == 2 && identifier(&parts[0]) && identifier(&parts[1]);
            judge_at(ok, path, UUID_RULE)
        },
        Rule::Wildcard => {
            validate_non_empty(value, path)?;
            let ok = (contains_char(&v, '*') || contains_char(&v, '?')) && !any_wildcard_forbidden(&v)
                && !contains_control(value) && !substituted(&v);
            judge_at(ok, path, WILDCARD_RULE)
        },
    }
}

/// Every element of the list, in order, by the rule.
pub open spec fn entries_check(vs: Seq<Seq<char>>, path: Seq<char>, rule: Rule) -> Result<(), Seq<char>> {
    first_error(Seq::new(vs.len(), |i: int| rule_check(rule, vs[i], element_path(path, i))))
}

pub fn check_entries(values: &Vec<String>, path: &str, rule: Rule) -> (r: Result<(), String>)
    ensures
        same_outcome(r, entries_check(string_views(values@), path@, rule)),
{
    let ghost vs = string_views(values@);
    let ghost cs = Seq::new(vs.len(), |i: int| rule_check(rule, vs[i], element_path(path@, i)));
    let mut i: usize = 0;
    assert(cs.take(0) =~= Seq::<Result<(), Seq<char>>>::empty());
    while i < values.len()
        invariant
            i <= values@.len(),
            vs == string_views(values@),
            cs == Seq::new(vs.len(), |i: int| rule_check(rule, vs[i], element_path(path@, i))),
            first_error(cs.take(i as int)) is Ok,
        decreases values@.len() - i,
    {
        proof {
            lemma_first_error_step(cs, i as int);
        }
        let item = indexed(path, i);
        assert(values@[i as int]@ == vs[i as int]);
        if let Err(e) = check_rule(rule, values[i].as_str(), item.as_str()) {
            proof {
                lemma_first_error_stop(cs, i + 1);
            }
            return Err(e);
        }
        i += 1;
    }
    proof {
        lemma_first_error_whole(cs);
    }
    Ok(())
}

/// An optional package list: literal, unique values first, then each value
/// by the rule.
pub open spec fn package_list_check(vs: Option<Vec<String>>, path: Seq<char>, rule: Rule) -> Result<(), Seq<char>> {
    match vs {
        Some(v) => then(unique_strings_check(string_views(v@), path), entries_check(string_views(v@), path, rule)),
        None => Ok(()),
    }
}

pub fn validate_package_list(values: &Option<Vec<String>>, path: &str, rule: Rule) -> (r: Result<(), String>)
    ensures
        same_outcome(r, package_list_check(*values, path@, rule)),
{
    match values {
        Some(v) => {
            validate_unique_strings(v, path)?;
            check_entries(v, path, rule)
        },
        None => Ok(()),
    }
}

// ------------------------------------------------------------ versions and quantities

pub open spec fn version_tail(min: nat, max: nat) -> Seq<char> {
    ": has an invalid version; expected "@ + decimal_text(min) + " to "@ + decimal_text(max) + " numeric components"@
}

pub open spec fn numeric_check(v: Seq<char>, path: Seq<char>, min: nat, max: nat) -> Result<(), Seq<char>> {
    fails_at(numeric_version_ok(v, min, max), path, version_tail(min, max))
}

pub fn validate_numeric_version(value: &str, path: &str, min: usize, max: usize) -> (r: Result<(), String>)
    ensures
        same_outcome(r, numeric_check(value@, path@, min as nat, max as nat)),
{
    let v = chars_of(value);
    if numeric_ok(&v, min, max) {
        return Ok(());
    }
    let mut m = concat(path, ": has an invalid version; expected ");
    m.append(decimal(min).as_str());
    m.append(" to ");
    m.append(decimal(max).as_str());
    m.append(" numeric components");
    assert(m@ =~= path@ + version_tail(min as nat, max as nat));
    Err(m)
}

/// A Rust toolchain: a channel, a dated nightly, or two or three numbers.
pub open spec fn rust_version_check(v: Seq<char>, path: Seq<char>) -> Result<(), Seq<char>> {
    if v == "stable"@ || v == "beta"@ || v == "nightly"@ {
        Ok(())
    } else if has_prefix(v, "nightly-"@) && nightly_date_ok(v.subrange(8, v.len() as int)) {
        Ok(())
    } else {
        numeric_check(v, path, 2, 3)
    }
}

pub fn validate_rust_version(value: &str, path: &str) -> (r: Result<(), String>)
    ensures
        same_outcome(r, rust_version_check(value@, path@)),
{
    let v = chars_of(value);
    if eq_str(&v, "stable") || eq_str(&v, "beta") || eq_str(&v, "nightly") {
        return Ok(());
    }
    let prefix = chars_of("nightly-");
    proof {
        reveal_strlit("nightly-");
    }
    if crate::text::starts_with(&v, &prefix) {
        let date = slice_to_vec(&v, 8, v.len());
        if nightly_date(&date) {
            return Ok(());
        }
    }
    validate_numeric_version(value, path, 2, 3)
}

pub const SIZE_RULE: &'static str = ": must be a positive integer followed by k, m, or g";

pub fn validate_positive_size(value: &str, path: &str) -> (r: Result<(), String>)
    ensures
        same_outcome(r, fails_at(docker_size_ok(value@), path@, SIZE_RULE@)),
{
    let v = chars_of(value);
    let ok = v.len() > 1 && {
        let last = v[v.len() - 1];
        let number = slice_to_vec(&v, 0, v.len() - 1);
        assert(number@ =~= v@.drop_last());
        (last == 'k' || last == 'm' || last == 'g') && all_in(&number, 0, CharClass::Digit)
            && some_nonzero(&v, v.len() - 1)
    };
    judge_at(ok, path, SIZE_RULE)
}

pub const DURATION_RULE: &'static str = ": must be a non-negative integer followed by exactly one of s, m, or h";

pub fn validate_duration(value: &str, path: &str) -> (r: Result<(), String>)
    ensures
        same_outcome(r, fails_at(duration_ok(value@), path@, DURATION_RULE@)),
{
    let v = chars_of(value);
    let ok = v.len() > 1 && {
        let last = v[v.len() - 1];
        let number = slice_to_vec(&v, 0, v.len() - 1);
        assert(number@ =~= v@.drop_last());
        (last == 's' || last == 'm' || last == 'h') && all_in(&number, 0, CharClass::Digit)
    };
    judge_at(ok, path, DURATION_RULE)
}

pub const GITHUB_RULE: &'static str = ": must be an owner/repository coordinate";

pub fn validate_github_repository(value: &str, path: &str) -> (r: Result<(), String>)
    ensures
        same_outcome(r, fails_at(github_repository_ok(value@), path@, GITHUB_RULE@)),
{
    let v = chars_of(value);
    let parts = split_chars(&v, '/');
    let ok = parts.len() == 2 && {
        let owner = &parts[0];
        let repo = &parts[1];
        owner.len() > 0 && alnum(owner[0]) && alnum(owner[owner.len() - 1]) && all_in(owner, 0, CharClass::Owner)
            && repo.len() > 0 && all_in(repo, 0, CharClass::Name) && not_only_dots(repo)
    };
    judge_at(ok, path, GITHUB_RULE)
}

} // verus!
