//! The value rules of the configuration model. Each rule checks one
//! configured string and, where the string breaks it, says why at the
//! value's path; the message quotes the value as `str`'s `Debug` does.
use vstd::prelude::*;
use crate::text::{
    alnum, alpha, chars_of, concat3, debug_str, debug_text, decimal, decimal_text, digit,
    element_path, concat, eq_chars, eq_str, first_error, indexed, is_alnum, is_alpha, is_digit,
    is_hex_lower, hex_lower, is_lower, lemma_first_error_step, lemma_first_error_stop,
    lemma_first_error_whole, lower, parse_unsigned, parsed_unsigned, same_outcome, slice_to_vec,
    split, split_chars, string_views, views, contains_control, has_control, has_prefix,
};

verus! {

/// The sets of characters that the rules allow after a value's first one.
#[derive(Clone, Copy, Debug, PartialEq, Eq, Structural)]
pub enum CharClass {
    /// ASCII alphanumerics, `.`, `_` and `-`
    Name,
    /// ASCII alphanumerics, `.`, `_`, `+` and `-`
    Executable,
    /// lowercase ASCII letters, digits, `+`, `.` and `-`
    Debian,
    /// ASCII alphanumerics, `_` and `-`
    Cargo,
    /// lowercase ASCII letters, digits, `.`, `_` and `-`
    Npm,
    /// ASCII alphanumerics and `_`
    Flatpak,
    /// lowercase ASCII letters, digits and `-`
    VsCode,
    /// ASCII alphanumerics and `-`
    Owner,
    /// lowercase ASCII letters, digits, `.`, `_`, `+` and `-`
    AptToken,
    /// ASCII digits
    Digit,
    /// ASCII digits and `a` to `f`
    Hex,
}

pub open spec fn is_lower_digit(c: char) -> bool {
    is_lower(c) || is_digit(c)
}

pub open spec fn class_has(k: CharClass, c: char) -> bool {
    match k {
        CharClass::Name => is_alnum(c) || c == '.' || c == '_' || c == '-',
        CharClass::Executable => is_alnum(c) || c == '.' || c == '_' || c == '+' || c == '-',
        CharClass::Debian => is_lower_digit(c) || c == '+' || c == '.' || c == '-',
        CharClass::Cargo => is_alnum(c) || c == '_' || c == '-',
        CharClass::Npm => is_lower_digit(c) || c == '.' || c == '_' || c == '-',
        CharClass::Flatpak => is_alnum(c) || c == '_',
        CharClass::VsCode => is_lower_digit(c) || c == '-',
        CharClass::Owner => is_alnum(c) || c == '-',
        CharClass::AptToken => is_lower_digit(c) || c == '.' || c == '_' || c == '+' || c == '-',
        CharClass::Digit => is_digit(c),
        CharClass::Hex => is_hex_lower(c),
    }
}

/// Every character of `v` from position `from` on is of the class.
pub open spec fn rest_in(v: Seq<char>, from: int, k: CharClass) -> bool {
    forall|i: int| from <= i < v.len() ==> class_has(k, #[trigger] v[i])
}

pub(crate) fn in_class(k: CharClass, c: char) -> (r: bool)
    ensures
        r == class_has(k, c),
{
    match k {
        CharClass::Name => alnum(c) || c == '.' || c == '_' || c == '-',
        CharClass::Executable => alnum(c) || c == '.' || c == '_' || c == '+' || c == '-',
        CharClass::Debian => lower(c) || digit(c) || c == '+' || c == '.' || c == '-',
        CharClass::Cargo => alnum(c) || c == '_' || c == '-',
        CharClass::Npm => lower(c) || digit(c) || c == '.' || c == '_' || c == '-',
        CharClass::Flatpak => alnum(c) || c == '_',
        CharClass::VsCode => lower(c) || digit(c) || c == '-',
        CharClass::Owner => alnum(c) || c == '-',
        CharClass::AptToken => lower(c) || digit(c) || c == '.' || c == '_' || c == '+' || c == '-',
        CharClass::Digit => digit(c),
        CharClass::Hex => hex_lower(c),
    }
}

pub(crate) fn all_in(v: &[char], from: usize, k: CharClass) -> (r: bool)
    ensures
        r == rest_in(v@, from as int, k),
{
    let mut i = from;
    while i < v.len()
        invariant
            from <= i,
            forall|j: int| from <= j < i && j < v@.len() ==> class_has(k, #[trigger] v@[j]),
        decreases v@.len() - i,
    {
        if !in_class(k, v[i]) {
            return false;
        }
        i += 1;
    }
    true
}

/// `path`, then `lead`, the quoted value and `tail`: the shape of every
/// message of these rules.
pub open spec fn rule_error(path: Seq<char>, lead: Seq<char>, value: Seq<char>, tail: Seq<char>) -> Seq<char> {
    path + lead + debug_text(value) + tail
}

fn fail(path: &str, lead: &str, value: &str, tail: &str) -> (r: String)
    ensures
        r@ == rule_error(path@, lead@, value@, tail@),
{
    let quoted = debug_str(value);
    let mut m = concat3(path, lead, quoted.as_str());
    m.append(tail);
    m
}

pub open spec fn verdict(ok: bool, path: Seq<char>, lead: Seq<char>, value: Seq<char>, tail: Seq<char>) -> Result<(), Seq<char>> {
    if ok {
        Ok(())
    } else {
        Err(rule_error(path, lead, value, tail))
    }
}

fn judge(ok: bool, path: &str, lead: &str, value: &str, tail: &str) -> (r: Result<(), String>)
    ensures
        same_outcome(r, verdict(ok, path@, lead@, value@, tail@)),
{
    if ok {
        Ok(())
    } else {
        Err(fail(path, lead, value, tail))
    }
}

// ------------------------------------------------------------ definition names

/// A name that starts and ends with an ASCII alphanumeric, with only
/// alphanumerics, `.`, `_` and `-` between.
pub open spec fn definition_name_ok(v: Seq<char>) -> bool {
    &&& v.len() > 0
    &&& is_alnum(v[0])
    &&& is_alnum(v.last())
    &&& rest_in(v, 0, CharClass::Name)
}

pub const INVALID_VALUE: &'static str = ": invalid value ";

pub const DEFINITION_NAME_RULE: &'static str = "; must start and end with an ASCII alphanumeric and contain only ASCII alphanumerics, '.', '_', or '-'";

pub open spec fn definition_name_check(v: Seq<char>, path: Seq<char>) -> Result<(), Seq<char>> {
    verdict(definition_name_ok(v), path, INVALID_VALUE@, v, DEFINITION_NAME_RULE@)
}

pub(crate) fn name_ok(v: &[char]) -> (r: bool)
    ensures
        r == definition_name_ok(v@),
{
    v.len() > 0 && alnum(v[0]) && alnum(v[v.len() - 1]) && all_in(v, 0, CharClass::Name)
}

pub fn validate_definition_name(value: &str, path: &str) -> (r: Result<(), String>)
    ensures
        same_outcome(r, definition_name_check(value@, path@)),
{
    let v = chars_of(value);
    judge(name_ok(&v), path, INVALID_VALUE, value, DEFINITION_NAME_RULE)
}

/// A dotfile package: one child directory, so neither `.` nor `..`, and a
/// definition name.
pub open spec fn dotfile_package_check(v: Seq<char>, path: Seq<char>) -> Result<(), Seq<char>> {
    if v == "."@ || v == ".."@ {
        Err(rule_error(path, ": must denote exactly one child directory, not "@, v, ""@))
    } else {
        definition_name_check(v, path)
    }
}

pub fn validate_dotfile_package(value: &str, path: &str) -> (r: Result<(), String>)
    ensures
        same_outcome(r, dotfile_package_check(value@, path@)),
{
    let v = chars_of(value);
    if eq_str(&v, ".") || eq_str(&v, "..") {
        return Err(fail(path, ": must denote exactly one child directory, not ", value, ""));
    }
    validate_definition_name(value, path)
}

// ------------------------------------------------------------ leading-character rules

/// A value whose first character satisfies the first test and whose other
/// characters are of the class.
pub open spec fn led_by(v: Seq<char>, first_alnum: bool, k: CharClass) -> bool {
    &&& v.len() > 0
    &&& (if first_alnum { is_alnum(v[0]) } else { is_lower_digit(v[0]) })
    &&& rest_in(v, 1, k)
}

pub(crate) fn led_ok(v: &[char], first_alnum: bool, k: CharClass) -> (r: bool)
    ensures
        r == led_by(v@, first_alnum, k),
{
    if v.len() == 0 {
        return false;
    }
    let head = if first_alnum { alnum(v[0]) } else { lower(v[0]) || digit(v[0]) };
    head && all_in(v, 1, k)
}

pub const EXECUTABLE_RULE: &'static str = "; must start with an ASCII alphanumeric and contain only ASCII alphanumerics, '.', '_', '+', or '-'";

pub open spec fn executable_check(v: Seq<char>, path: Seq<char>) -> Result<(), Seq<char>> {
    verdict(led_by(v, true, CharClass::Executable), path, ": invalid executable basename "@, v, EXECUTABLE_RULE@)
}

pub fn validate_executable(value: &str, path: &str) -> (r: Result<(), String>)
    ensures
        same_outcome(r, executable_check(value@, path@)),
{
    let v = chars_of(value);
    judge(led_ok(&v, true, CharClass::Executable), path, ": invalid executable basename ", value, EXECUTABLE_RULE)
}

pub open spec fn debian_package_check(v: Seq<char>, path: Seq<char>) -> Result<(), Seq<char>> {
    verdict(led_by(v, false, CharClass::Debian), path, ": invalid Debian package name "@, v, "; must be unversioned"@)
}

pub fn validate_debian_package(value: &str, path: &str) -> (r: Result<(), String>)
    ensures
        same_outcome(r, debian_package_check(value@, path@)),
{
    let v = chars_of(value);
    judge(led_ok(&v, false, CharClass::Debian), path, ": invalid Debian package name ", value, "; must be unversioned")
}

pub open spec fn cargo_package_check(v: Seq<char>, path: Seq<char>) -> Result<(), Seq<char>> {
    verdict(led_by(v, true, CharClass::Cargo), path, ": invalid Cargo package name "@, v, "; must be unversioned"@)
}

pub fn validate_cargo_package(value: &str, path: &str) -> (r: Result<(), String>)
    ensures
        same_outcome(r, cargo_package_check(value@, path@)),
{
    let v = chars_of(value);
    judge(led_ok(&v, true, CharClass::Cargo), path, ": invalid Cargo package name ", value, "; must be unversioned")
}

/// An APT token: the literal `*`, or one lowercase token.
pub open spec fn apt_token_ok(v: Seq<char>) -> bool {
    v == "*"@ || led_by(v, false, CharClass::AptToken)
}

pub const APT_TOKEN_RULE: &'static str = "; must be one lowercase token or the complete literal '*'";

pub open spec fn apt_token_check(v: Seq<char>, path: Seq<char>) -> Result<(), Seq<char>> {
    verdict(apt_token_ok(v), path, ": invalid APT token "@, v, APT_TOKEN_RULE@)
}

pub fn validate_apt_token(value: &str, path: &str) -> (r: Result<(), String>)
    ensures
        same_outcome(r, apt_token_check(value@, path@)),
{
    let v = chars_of(value);
    let ok = eq_str(&v, "*") || led_ok(&v, false, CharClass::AptToken);
    judge(ok, path, ": invalid APT token ", value, APT_TOKEN_RULE)
}

/// A repository suite: `system`, `*`, or an APT token.
pub open spec fn suite_check(v: Seq<char>, path: Seq<char>) -> Result<(), Seq<char>> {
    if v == "system"@ || v == "*"@ {
        Ok(())
    } else {
        apt_token_check(v, path)
    }
}

pub fn validate_suite(value: &str, path: &str) -> (r: Result<(), String>)
    ensures
        same_outcome(r, suite_check(value@, path@)),
{
    let v = chars_of(value);
    if eq_str(&v, "system") || eq_str(&v, "*") {
        return Ok(());
    }
    validate_apt_token(value, path)
}


// ------------------------------------------------------------ dotted and scoped names

/// One part of an npm name: a lowercase letter or digit, then lowercase
/// letters, digits, `.`, `_` or `-`.
pub open spec fn npm_part_ok(p: Seq<char>) -> bool {
    led_by(p, false, CharClass::Npm)
}

/// An unversioned npm package name: `name` or `@scope/name`.
pub open spec fn npm_name_ok(v: Seq<char>) -> bool {
    if v.len() > 0 && v[0] == '@' {
        let parts = split(v.drop_first(), '/');
        parts.len() == 2 && npm_part_ok(parts[0]) && npm_part_ok(parts[1])
    } else {
        !v.contains('/') && npm_part_ok(v)
    }
}

pub const NPM_RULE: &'static str = "; must be an unversioned lowercase name or @scope/name";

pub open spec fn npm_package_check(v: Seq<char>, path: Seq<char>) -> Result<(), Seq<char>> {
    verdict(npm_name_ok(v), path, ": invalid npm package name "@, v, NPM_RULE@)
}

pub(crate) fn npm_ok(v: &Vec<char>) -> (r: bool)
    ensures
        r == npm_name_ok(v@),
{
    if v.len() > 0 && v[0] == '@' {
        let rest = slice_to_vec(v, 1, v.len());
        assert(rest@ =~= v@.drop_first());
        let parts = split_chars(&rest, '/');
        parts.len() == 2 && led_ok(&parts[0], false, CharClass::Npm) && led_ok(&parts[1], false, CharClass::Npm)
    } else {
        !crate::text::contains_char(v, '/') && led_ok(v, false, CharClass::Npm)
    }
}

pub fn validate_npm_package(value: &str, path: &str) -> (r: Result<(), String>)
    ensures
        same_outcome(r, npm_package_check(value@, path@)),
{
    let v = chars_of(value);
    judge(npm_ok(&v), path, ": invalid npm package name ", value, NPM_RULE)
}

/// One component of a Flatpak application ID: an ASCII letter, then
/// alphanumerics or `_`.
pub open spec fn flatpak_component_ok(p: Seq<char>) -> bool {
    p.len() > 0 && is_alpha(p[0]) && rest_in(p, 1, CharClass::Flatpak)
}

/// A canonical Flatpak application ID: at least three dotted components.
pub open spec fn flatpak_id_ok(v: Seq<char>) -> bool {
    let parts = split(v, '.');
    parts.len() >= 3 && forall|i: int| 0 <= i < parts.len() ==> flatpak_component_ok(#[trigger] parts[i])
}

pub open spec fn flatpak_id_check(v: Seq<char>, path: Seq<char>) -> Result<(), Seq<char>> {
    verdict(flatpak_id_ok(v), path, ": invalid Flatpak application ID "@, v, "; must be canonical"@)
}

pub(crate) fn flatpak_ok(v: &Vec<char>) -> (r: bool)
    ensures
        r == flatpak_id_ok(v@),
{
    let parts = split_chars(v, '.');
    if parts.len() < 3 {
        return false;
    }
    let mut i: usize = 0;
    while i < parts.len()
        invariant
            i <= parts@.len(),
            views(parts@) == split(v@, '.'),
            forall|j: int| 0 <= j < i ==> flatpak_component_ok(#[trigger] split(v@, '.')[j]),
        decreases parts@.len() - i,
    {
        let p = &parts[i];
        assert(p@ == split(v@, '.')[i as int]);
        if !(p.len() > 0 && alpha(p[0]) && all_in(p, 1, CharClass::Flatpak)) {
            return false;
        }
        i += 1;
    }
    true
}

pub fn validate_flatpak_id(value: &str, path: &str) -> (r: Result<(), String>)
    ensures
        same_outcome(r, flatpak_id_check(value@, path@)),
{
    let v = chars_of(value);
    judge(flatpak_ok(&v), path, ": invalid Flatpak application ID ", value, "; must be canonical")
}

/// A VS Code extension identifier: lowercase `publisher.extension`.
pub open spec fn vscode_id_ok(v: Seq<char>) -> bool {
    let parts = split(v, '.');
    parts.len() == 2 && led_by(parts[0], false, CharClass::VsCode) && led_by(parts[1], false, CharClass::VsCode)
}

pub const VSCODE_RULE: &'static str = "; must be lowercase publisher.extension";

pub open spec fn vscode_id_check(v: Seq<char>, path: Seq<char>) -> Result<(), Seq<char>> {
    verdict(vscode_id_ok(v), path, ": invalid VS Code extension identifier "@, v, VSCODE_RULE@)
}

pub fn validate_vscode_id(value: &str, path: &str) -> (r: Result<(), String>)
    ensures
        same_outcome(r, vscode_id_check(value@, path@)),
{
    let v = chars_of(value);
    let parts = split_chars(&v, '.');
    let ok = parts.len() == 2 && led_ok(&parts[0], false, CharClass::VsCode) && led_ok(&parts[1], false, CharClass::VsCode);
    judge(ok, path, ": invalid VS Code extension identifier ", value, VSCODE_RULE)
}

/// A GNOME extension UUID: two non-empty parts around exactly one `@`, of
/// alphanumerics, `-`, `_` and `.`.
pub open spec fn uuid_part_ok(p: Seq<char>) -> bool {
    p.len() > 0 && rest_in(p, 0, CharClass::Name)
}

pub open spec fn gnome_uuid_ok(v: Seq<char>) -> bool {
    let parts = split(v, '@');
    parts.len() == 2 && uuid_part_ok(parts[0]) && uuid_part_ok(parts[1])
}

pub const UUID_RULE: &'static str = "; must contain exactly one '@'";

pub open spec fn gnome_uuid_check(v: Seq<char>, path: Seq<char>) -> Result<(), Seq<char>> {
    verdict(gnome_uuid_ok(v), path, ": invalid GNOME extension UUID "@, v, UUID_RULE@)
}

pub fn validate_gnome_uuid(value: &str, path: &str) -> (r: Result<(), String>)
    ensures
        same_outcome(r, gnome_uuid_check(value@, path@)),
{
    let v = chars_of(value);
    let parts = split_chars(&v, '@');
    let ok = parts.len() == 2 && parts[0].len() > 0 && all_in(&parts[0], 0, CharClass::Name)
        && parts[1].len() > 0 && all_in(&parts[1], 0, CharClass::Name);
    judge(ok, path, ": invalid GNOME extension UUID ", value, UUID_RULE)
}

/// A GitHub owner: alphanumerics and `-`, starting and ending with an
/// alphanumeric.
pub open spec fn github_owner_ok(p: Seq<char>) -> bool {
    p.len() > 0 && is_alnum(p[0]) && is_alnum(p.last()) && rest_in(p, 0, CharClass::Owner)
}

/// A GitHub repository name: alphanumerics, `-`, `_` and `.`, not dots alone.
pub open spec fn github_repo_ok(p: Seq<char>) -> bool {
    &&& p.len() > 0
    &&& rest_in(p, 0, CharClass::Name)
    &&& exists|i: int| 0 <= i < p.len() && #[trigger] p[i] != '.'
}

pub open spec fn github_repository_ok(v: Seq<char>) -> bool {
    let parts = split(v, '/');
    parts.len() == 2 && github_owner_ok(parts[0]) && github_repo_ok(parts[1])
}

pub const GITHUB_RULE: &'static str = "; must be an owner/repository coordinate";

pub open spec fn github_repository_check(v: Seq<char>, path: Seq<char>) -> Result<(), Seq<char>> {
    verdict(github_repository_ok(v), path, ": invalid GitHub repository "@, v, GITHUB_RULE@)
}

pub(crate) fn not_only_dots(p: &Vec<char>) -> (r: bool)
    ensures
        r == exists|i: int| 0 <= i < p@.len() && #[trigger] p@[i] != '.',
{
    let mut i: usize = 0;
    while i < p.len()
        invariant
            i <= p@.len(),
            forall|j: int| 0 <= j < i ==> #[trigger] p@[j] == '.',
        decreases p@.len() - i,
    {
        if p[i] != '.' {
            return true;
        }
        i += 1;
    }
    false
}

pub fn validate_github_repository(value: &str, path: &str) -> (r: Result<(), String>)
    ensures
        same_outcome(r, github_repository_check(value@, path@)),
{
    let v = chars_of(value);
    let parts = split_chars(&v, '/');
    let ok = parts.len() == 2 && {
        let owner = &parts[0];
        let repo = &parts[1];
        owner.len() > 0 && alnum(owner[0]) && alnum(owner[owner.len() - 1]) && all_in(owner, 0, CharClass::Owner)
            && repo.len() > 0 && all_in(repo, 0, CharClass::Name) && not_only_dots(repo)
    };
    judge(ok, path, ": invalid GitHub repository ", value, GITHUB_RULE)
}


// ------------------------------------------------------------ paths and patterns

pub const REPOSITORY_PATH_RULE: &'static str = "; must be './' or a safe relative path ending in '/'";

pub const REPOSITORY_PATH_EMPTY: &'static str = "; must contain at least one safe relative path segment";

/// The first segment, from `from` on, that is no definition name (the
/// empty segment, `.` and `..` among them).
pub open spec fn first_invalid_segment(segs: Seq<Seq<char>>, from: int) -> Option<int>
    decreases segs.len() - from,
{
    if from < 0 || from >= segs.len() {
        None
    } else if !definition_name_ok(segs[from]) {
        Some(from)
    } else {
        first_invalid_segment(segs, from + 1)
    }
}

/// A repository path: `./`, or a relative path of definition names, each
/// followed by `/`.
pub open spec fn repository_path_check(v: Seq<char>, path: Seq<char>) -> Result<(), Seq<char>> {
    if v == "./"@ {
        Ok(())
    } else if v.len() == 0 || v.last() != '/' || v[0] == '/' || v.contains('\\') {
        Err(rule_error(path, ": invalid repository path "@, v, REPOSITORY_PATH_RULE@))
    } else if v.drop_last().len() == 0 {
        Err(rule_error(path, ": invalid repository path "@, v, REPOSITORY_PATH_EMPTY@))
    } else {
        let segs = split(v.drop_last(), '/');
        match first_invalid_segment(segs, 0) {
            Some(i) => Err(rule_error(path, ": invalid repository path "@, v, "; contains invalid relative path segment "@)
                + debug_text(segs[i])),
            None => Ok(()),
        }
    }
}

pub fn validate_repository_path(value: &str, path: &str) -> (r: Result<(), String>)
    ensures
        same_outcome(r, repository_path_check(value@, path@)),
{
    let v = chars_of(value);
    if eq_str(&v, "./") {
        return Ok(());
    }
    if v.len() == 0 || v[v.len() - 1] != '/' || v[0] == '/' || crate::text::contains_char(&v, '\\') {
        return Err(fail(path, ": invalid repository path ", value, REPOSITORY_PATH_RULE));
    }
    let body = slice_to_vec(&v, 0, v.len() - 1);
    assert(body@ =~= v@.drop_last());
    if body.len() == 0 {
        return Err(fail(path, ": invalid repository path ", value, REPOSITORY_PATH_EMPTY));
    }
    let segs = split_chars(&body, '/');
    let ghost ss = views(segs@);
    let mut i: usize = 0;
    while i < segs.len()
        invariant
            i <= segs@.len(),
            ss == views(segs@),
            ss == split(value@.drop_last(), '/'),
            value@.drop_last().len() > 0,
            value@ != "./"@,
            !(value@.len() == 0 || value@.last() != '/' || value@[0] == '/' || value@.contains('\\')),
            first_invalid_segment(ss, 0) == first_invalid_segment(ss, i as int),
        decreases segs@.len() - i,
    {
        assert(ss[i as int] == segs@[i as int]@);
        if !name_ok(&segs[i]) {
            assert(first_invalid_segment(ss, i as int) == Some(i as int));
            let text = crate::text::string_of(&segs[i]);
            let quoted = debug_str(text.as_str());
            let mut m = fail(path, ": invalid repository path ", value, "; contains invalid relative path segment ");
            m.append(quoted.as_str());
            return Err(m);
        }
        i += 1;
    }
    Ok(())
}

/// A whole-filename wildcard: non-empty, with at least one `*` or `?`,
/// none of the characters that other pattern languages or shells read,
/// and no control character.
pub open spec fn pattern_forbidden(c: char) -> bool {
    c == '/' || c == '\\' || c == '[' || c == ']' || c == '{' || c == '}' || c == '$' || c == '`'
}

pub open spec fn wildcard_ok(v: Seq<char>) -> bool {
    &&& v.len() > 0
    &&& (v.contains('*') || v.contains('?'))
    &&& !(exists|i: int| 0 <= i < v.len() && pattern_forbidden(#[trigger] v[i]))
    &&& !has_control(v)
}

pub const WILDCARD_RULE: &'static str = "; must be a whole-filename wildcard using only '*' and '?' operators";

pub open spec fn wildcard_check(v: Seq<char>, path: Seq<char>) -> Result<(), Seq<char>> {
    verdict(wildcard_ok(v), path, ": invalid asset selector "@, v, WILDCARD_RULE@)
}

pub(crate) fn any_forbidden(v: &Vec<char>) -> (r: bool)
    ensures
        r == exists|i: int| 0 <= i < v@.len() && pattern_forbidden(#[trigger] v@[i]),
{
    let mut i: usize = 0;
    while i < v.len()
        invariant
            i <= v@.len(),
            forall|j: int| 0 <= j < i ==> !pattern_forbidden(#[trigger] v@[j]),
        decreases v@.len() - i,
    {
        let c = v[i];
        if c == '/' || c == '\\' || c == '[' || c == ']' || c == '{' || c == '}' || c == '$' || c == '`' {
            return true;
        }
        i += 1;
    }
    false
}

pub fn validate_wildcard(value: &str, path: &str) -> (r: Result<(), String>)
    ensures
        same_outcome(r, wildcard_check(value@, path@)),
{
    let v = chars_of(value);
    let ok = v.len() > 0 && (crate::text::contains_char(&v, '*') || crate::text::contains_char(&v, '?'))
        && !any_forbidden(&v) && !contains_control(value);
    judge(ok, path, ": invalid asset selector ", value, WILDCARD_RULE)
}

// ------------------------------------------------------------ versions and quantities

/// `min` to `max` dot-separated parts, each of one or more ASCII digits.
pub open spec fn numeric_version_ok(v: Seq<char>, min: nat, max: nat) -> bool {
    let parts = split(v, '.');
    &&& min <= parts.len() <= max
    &&& forall|i: int| 0 <= i < parts.len() ==> (#[trigger] parts[i]).len() > 0 && rest_in(parts[i], 0, CharClass::Digit)
}

pub open spec fn numeric_version_tail(min: nat, max: nat) -> Seq<char> {
    "; expected "@ + decimal_text(min) + " to "@ + decimal_text(max) + " numeric components"@
}

pub open spec fn numeric_version_check(v: Seq<char>, path: Seq<char>, min: nat, max: nat) -> Result<(), Seq<char>> {
    verdict(numeric_version_ok(v, min, max), path, ": invalid selector "@, v, numeric_version_tail(min, max))
}

pub(crate) fn numeric_ok(v: &Vec<char>, min: usize, max: usize) -> (r: bool)
    ensures
        r == numeric_version_ok(v@, min as nat, max as nat),
{
    let parts = split_chars(v, '.');
    if parts.len() < min || parts.len() > max {
        return false;
    }
    let mut i: usize = 0;
    while i < parts.len()
        invariant
            i <= parts@.len(),
            views(parts@) == split(v@, '.'),
            forall|j: int| 0 <= j < i ==> (#[trigger] split(v@, '.')[j]).len() > 0 && rest_in(split(v@, '.')[j], 0, CharClass::Digit),
        decreases parts@.len() - i,
    {
        assert(parts@[i as int]@ == split(v@, '.')[i as int]);
        if parts[i].len() == 0 || !all_in(&parts[i], 0, CharClass::Digit) {
            return false;
        }
        i += 1;
    }
    true
}

pub fn validate_numeric_version(value: &str, path: &str, min: usize, max: usize) -> (r: Result<(), String>)
    ensures
        same_outcome(r, numeric_version_check(value@, path@, min as nat, max as nat)),
{
    let v = chars_of(value);
    if numeric_ok(&v, min, max) {
        return Ok(());
    }
    let mut tail = String::from_str("; expected ");
    tail.append(decimal(min).as_str());
    tail.append(" to ");
    tail.append(decimal(max).as_str());
    tail.append(" numeric components");
    Err(fail(path, ": invalid selector ", value, tail.as_str()))
}

/// A calendar date of the proleptic Gregorian calendar, year 0 excluded.
pub open spec fn calendar_ok(y: nat, m: nat, d: nat) -> bool {
    let leap = y % 4 == 0 && (y % 100 != 0 || y % 400 == 0);
    let days: nat = if m == 1 || m == 3 || m == 5 || m == 7 || m == 8 || m == 10 || m == 12 {
        31
    } else if m == 4 || m == 6 || m == 9 || m == 11 {
        30
    } else if m == 2 && leap {
        29
    } else if m == 2 {
        28
    } else {
        0
    };
    days > 0 && y != 0 && 1 <= d <= days
}

/// The date of a dated nightly toolchain: `YYYY-MM-DD` in digits, read as
/// a `u16` year and `u8` month and day, naming a real day.
pub open spec fn nightly_date_ok(date: Seq<char>) -> bool {
    let parts = split(date, '-');
    &&& parts.len() == 3
    &&& parts[0].len() == 4 && parts[1].len() == 2 && parts[2].len() == 2
    &&& rest_in(parts[0], 0, CharClass::Digit) && rest_in(parts[1], 0, CharClass::Digit) && rest_in(parts[2], 0, CharClass::Digit)
    &&& match (parsed_unsigned(parts[0], 10, 65535), parsed_unsigned(parts[1], 10, 255), parsed_unsigned(parts[2], 10, 255)) {
        (Some(y), Some(m), Some(d)) => calendar_ok(y, m, d),
        _ => false,
    }
}

/// A Rust toolchain selector: a channel, a dated nightly, or a version of
/// two or three numeric parts.
pub open spec fn rust_selector_check(v: Seq<char>, path: Seq<char>) -> Result<(), Seq<char>> {
    if v == "stable"@ || v == "beta"@ || v == "nightly"@ {
        Ok(())
    } else if has_prefix(v, "nightly-"@) && nightly_date_ok(v.subrange(8, v.len() as int)) {
        Ok(())
    } else {
        numeric_version_check(v, path, 2, 3)
    }
}

pub(crate) fn calendar(y: u64, m: u64, d: u64) -> (r: bool)
    requires
        y <= 65535,
        m <= 255,
        d <= 255,
    ensures
        r == calendar_ok(y as nat, m as nat, d as nat),
{
    let leap = y % 4 == 0 && (y % 100 != 0 || y % 400 == 0);
    let days: u64 = if m == 1 || m == 3 || m == 5 || m == 7 || m == 8 || m == 10 || m == 12 {
        31
    } else if m == 4 || m == 6 || m == 9 || m == 11 {
        30
    } else if m == 2 && leap {
        29
    } else if m == 2 {
        28
    } else {
        0
    };
    days > 0 && y != 0 && 1 <= d && d <= days
}

pub(crate) fn nightly_date(date: &Vec<char>) -> (r: bool)
    ensures
        r == nightly_date_ok(date@),
{
    let parts = split_chars(date, '-');
    if parts.len() != 3 || parts[0].len() != 4 || parts[1].len() != 2 || parts[2].len() != 2 {
        return false;
    }
    if !all_in(&parts[0], 0, CharClass::Digit) || !all_in(&parts[1], 0, CharClass::Digit)
        || !all_in(&parts[2], 0, CharClass::Digit) {
        return false;
    }
    let y = parse_unsigned(&parts[0], 10, 65535);
    let m = parse_unsigned(&parts[1], 10, 255);
    let d = parse_unsigned(&parts[2], 10, 255);
    match (y, m, d) {
        (Some(y), Some(m), Some(d)) => calendar(y, m, d),
        _ => false,
    }
}

pub fn validate_rust_selector(value: &str, path: &str) -> (r: Result<(), String>)
    ensures
        same_outcome(r, rust_selector_check(value@, path@)),
{
    let v = chars_of(value);
    if eq_str(&v, "stable") || eq_str(&v, "beta") || eq_str(&v, "nightly") {
        return Ok(());
    }
    let prefix = chars_of("nightly-");
    proof {
        reveal_strlit("nightly-");
    }
    if crate::text::starts_with(&v, &prefix) {
        let date = slice_to_vec(&v, 8, v.len());
        if nightly_date(&date) {
            return Ok(());
        }
    }
    validate_numeric_version(value, path, 2, 3)
}

/// A duration: a non-negative decimal integer followed by `s`, `m` or `h`.
pub open spec fn duration_ok(v: Seq<char>) -> bool {
    &&& v.len() > 0
    &&& (v.last() == 's' || v.last() == 'm' || v.last() == 'h')
    &&& v.drop_last().len() > 0
    &&& rest_in(v.drop_last(), 0, CharClass::Digit)
}

pub const DURATION_RULE: &'static str = "; must be a non-negative decimal integer followed by s, m, or h";

pub open spec fn duration_check(v: Seq<char>, path: Seq<char>) -> Result<(), Seq<char>> {
    verdict(duration_ok(v), path, ": invalid duration "@, v, DURATION_RULE@)
}

pub fn validate_duration(value: &str, path: &str) -> (r: Result<(), String>)
    ensures
        same_outcome(r, duration_check(value@, path@)),
{
    let v = chars_of(value);
    let ok = v.len() > 1 && {
        let last = v[v.len() - 1];
        let number = slice_to_vec(&v, 0, v.len() - 1);
        assert(number@ =~= v@.drop_last());
        (last == 's' || last == 'm' || last == 'h') && all_in(&number, 0, CharClass::Digit)
    };
    judge(ok, path, ": invalid duration ", value, DURATION_RULE)
}

/// A Docker size: a positive decimal integer followed by `k`, `m` or `g`.
pub open spec fn docker_size_ok(v: Seq<char>) -> bool {
    &&& v.len() > 0
    &&& (v.last() == 'k' || v.last() == 'm' || v.last() == 'g')
    &&& v.drop_last().len() > 0
    &&& rest_in(v.drop_last(), 0, CharClass::Digit)
    &&& exists|i: int| 0 <= i < v.len() - 1 && #[trigger] v[i] != '0'
}

pub const DOCKER_SIZE_RULE: &'static str = "; must be a positive decimal integer followed by k, m, or g";

pub open spec fn docker_size_check(v: Seq<char>, path: Seq<char>) -> Result<(), Seq<char>> {
    verdict(docker_size_ok(v), path, ": invalid Docker size "@, v, DOCKER_SIZE_RULE@)
}

pub(crate) fn some_nonzero(v: &Vec<char>, end: usize) -> (r: bool)
    requires
        end <= v@.len(),
    ensures
        r == exists|i: int| 0 <= i < end && #[trigger] v@[i] != '0',
{
    let mut i: usize = 0;
    while i < end
        invariant
            i <= end <= v@.len(),
            forall|j: int| 0 <= j < i ==> #[trigger] v@[j] == '0',
        decreases end - i,
    {
        if v[i] != '0' {
            return true;
        }
        i += 1;
    }
    false
}

pub fn validate_docker_size(value: &str, path: &str) -> (r: Result<(), String>)
    ensures
        same_outcome(r, docker_size_check(value@, path@)),
{
    let v = chars_of(value);
    let ok = v.len() > 1 && {
        let last = v[v.len() - 1];
        let number = slice_to_vec(&v, 0, v.len() - 1);
        assert(number@ =~= v@.drop_last());
        (last == 'k' || last == 'm' || last == 'g') && all_in(&number, 0, CharClass::Digit)
            && some_nonzero(&v, v.len() - 1)
    };
    judge(ok, path, ": invalid Docker size ", value, DOCKER_SIZE_RULE)
}

/// A SHA-256 digest: exactly 64 lowercase hexadecimal characters.
pub open spec fn sha256_ok(v: Seq<char>) -> bool {
    v.len() == 64 && rest_in(v, 0, CharClass::Hex)
}

pub const SHA256_RULE: &'static str = "; must be exactly 64 lowercase hexadecimal characters";

pub open spec fn sha256_check(v: Seq<char>, path: Seq<char>) -> Result<(), Seq<char>> {
    verdict(sha256_ok(v), path, ": invalid SHA-256 "@, v, SHA256_RULE@)
}

pub fn validate_sha256(value: &str, path: &str) -> (r: Result<(), String>)
    ensures
        same_outcome(r, sha256_check(value@, path@)),
{
    let v = chars_of(value);
    judge(v.len() == 64 && all_in(&v, 0, CharClass::Hex), path, ": invalid SHA-256 ", value, SHA256_RULE)
}


// ------------------------------------------------------------ shapes of configured values

/// The first check's error, else the second's outcome: two checks made in
/// order.
pub open spec fn then(a: Result<(), Seq<char>>, b: Result<(), Seq<char>>) -> Result<(), Seq<char>> {
    match a {
        Err(e) => Err(e),
        Ok(_) => b,
    }
}

pub const NOT_EFFECTIVE: &'static str = ": must contain at least one effective child; omit the mapping instead";

/// A mapping that is present must set at least one of its children.
pub open spec fn effective_check(effective: bool, path: Seq<char>) -> Result<(), Seq<char>> {
    if effective {
        Ok(())
    } else {
        Err(path + NOT_EFFECTIVE@)
    }
}

pub fn require_effective(effective: bool, path: &str) -> (r: Result<(), String>)
    ensures
        same_outcome(r, effective_check(effective, path@)),
{
    if effective {
        Ok(())
    } else {
        Err(crate::text::concat(path, NOT_EFFECTIVE))
    }
}

pub const REDUNDANT_FALSE: &'static str = ": false is redundant and invalid; omit the field instead";

/// A flag that is present must be `true`.
pub open spec fn true_only_check(value: Option<bool>, path: Seq<char>) -> Result<(), Seq<char>> {
    if value == Some(false) {
        Err(path + REDUNDANT_FALSE@)
    } else {
        Ok(())
    }
}

pub fn true_only(value: Option<bool>, path: &str) -> (r: Result<(), String>)
    ensures
        same_outcome(r, true_only_check(value, path@)),
{
    if value == Some(false) {
        Err(crate::text::concat(path, REDUNDANT_FALSE))
    } else {
        Ok(())
    }
}

pub const EMPTY_SEQUENCE: &'static str = ": must be a non-empty sequence";

pub const EMPTY_MAPPING: &'static str = ": must be a non-empty mapping";

pub const DUPLICATE_VALUE: &'static str = ": duplicate value ";

/// Whether the element at `i` equals an earlier one.
pub open spec fn repeats_earlier<T>(vs: Seq<T>, i: int) -> bool {
    exists|j: int| 0 <= j < i && vs[j] == vs[i]
}

/// The first position, from `from` on, whose element equals an earlier one.
pub open spec fn first_repeat<T>(vs: Seq<T>, from: int) -> Option<int>
    decreases vs.len() - from,
{
    if from < 0 || from >= vs.len() {
        None
    } else if repeats_earlier(vs, from) {
        Some(from)
    } else {
        first_repeat(vs, from + 1)
    }
}

/// A sequence that is present must be non-empty and hold no value twice;
/// a repeated value is reported at its second position, written by `name`.
pub open spec fn unique_check<T>(vs: Seq<T>, name: spec_fn(T) -> Seq<char>, path: Seq<char>) -> Result<(), Seq<char>> {
    if vs.len() == 0 {
        Err(path + EMPTY_SEQUENCE@)
    } else {
        match first_repeat(vs, 0) {
            Some(i) => Err(element_path(path, i) + DUPLICATE_VALUE@ + name(vs[i])),
            None => Ok(()),
        }
    }
}

/// The rules that a configured list of strings can be held to.
#[derive(Clone, Copy, Debug, PartialEq, Eq, Structural)]
pub enum ValueRule {
    DefinitionName,
    DotfilePackage,
    Executable,
    DebianPackage,
    CargoPackage,
    NpmPackage,
    FlatpakId,
    VsCodeId,
    GnomeUuid,
    Wildcard,
}

pub open spec fn value_check(rule: ValueRule, v: Seq<char>, path: Seq<char>) -> Result<(), Seq<char>> {
    match rule {
        ValueRule::DefinitionName => definition_name_check(v, path),
        ValueRule::DotfilePackage => dotfile_package_check(v, path),
        ValueRule::Executable => executable_check(v, path),
        ValueRule::DebianPackage => debian_package_check(v, path),
        ValueRule::CargoPackage => cargo_package_check(v, path),
        ValueRule::NpmPackage => npm_package_check(v, path),
        ValueRule::FlatpakId => flatpak_id_check(v, path),
        ValueRule::VsCodeId => vscode_id_check(v, path),
        ValueRule::GnomeUuid => gnome_uuid_check(v, path),
        ValueRule::Wildcard => wildcard_check(v, path),
    }
}

pub fn check_value(rule: ValueRule, value: &str, path: &str) -> (r: Result<(), String>)
    ensures
        same_outcome(r, value_check(rule, value@, path@)),
{
    match rule {
        ValueRule::DefinitionName => validate_definition_name(value, path),
        ValueRule::DotfilePackage => validate_dotfile_package(value, path),
        ValueRule::Executable => validate_executable(value, path),
        ValueRule::DebianPackage => validate_debian_package(value, path),
        ValueRule::CargoPackage => validate_cargo_package(value, path),
        ValueRule::NpmPackage => validate_npm_package(value, path),
        ValueRule::FlatpakId => validate_flatpak_id(value, path),
        ValueRule::VsCodeId => validate_vscode_id(value, path),
        ValueRule::GnomeUuid => validate_gnome_uuid(value, path),
        ValueRule::Wildcard => validate_wildcard(value, path),
    }
}

/// The element at `i` of a string list: it follows the rule, and it does
/// not repeat an earlier element.
pub open spec fn string_entry_check(vs: Seq<Seq<char>>, path: Seq<char>, rule: ValueRule, i: int) -> Result<(), Seq<char>> {
    let item = element_path(path, i);
    match value_check(rule, vs[i], item) {
        Err(e) => Err(e),
        Ok(_) => if repeats_earlier(vs, i) {
            Err(item + DUPLICATE_VALUE@ + debug_text(vs[i]))
        } else {
            Ok(())
        },
    }
}

/// A configured list of strings: non-empty, each element by the rule and
/// none twice, checked element by element.
pub open spec fn string_values_check(vs: Seq<Seq<char>>, path: Seq<char>, rule: ValueRule) -> Result<(), Seq<char>> {
    if vs.len() == 0 {
        Err(path + EMPTY_SEQUENCE@)
    } else {
        first_error(Seq::new(vs.len(), |i: int| string_entry_check(vs, path, rule, i)))
    }
}

/// An optional list: checked where present.
pub open spec fn string_list_check(vs: Option<Vec<String>>, path: Seq<char>, rule: ValueRule) -> Result<(), Seq<char>> {
    match vs {
        Some(v) => string_values_check(string_views(v@), path, rule),
        None => Ok(()),
    }
}

/// Whether an earlier element of `values` (before `index`) equals the one at `index`.
pub fn repeated_before(values: &Vec<String>, index: usize) -> (r: bool)
    requires
        index < values@.len(),
    ensures
        r == repeats_earlier(string_views(values@), index as int),
{
    let ghost vs = string_views(values@);
    let target = chars_of(values[index].as_str());
    let mut j: usize = 0;
    while j < index
        invariant
            j <= index < values@.len(),
            vs == string_views(values@),
            target@ == vs[index as int],
            forall|k: int| 0 <= k < j ==> vs[k] != vs[index as int],
        decreases index - j,
    {
        let other = chars_of(values[j].as_str());
        assert(other@ == vs[j as int]);
        if eq_chars(&other, &target) {
            return true;
        }
        j += 1;
    }
    false
}

pub fn validate_string_values(values: &Vec<String>, path: &str, rule: ValueRule) -> (r: Result<(), String>)
    ensures
        same_outcome(r, string_values_check(string_views(values@), path@, rule)),
{
    let ghost vs = string_views(values@);
    if values.len() == 0 {
        return Err(crate::text::concat(path, EMPTY_SEQUENCE));
    }
    let ghost cs = Seq::new(vs.len(), |i: int| string_entry_check(vs, path@, rule, i));
    let mut i: usize = 0;
    assert(cs.take(0) =~= Seq::<Result<(), Seq<char>>>::empty());
    while i < values.len()
        invariant
            i <= values@.len(),
            vs == string_views(values@),
            vs.len() > 0,
            cs == Seq::new(vs.len(), |i: int| string_entry_check(vs, path@, rule, i)),
            first_error(cs.take(i as int)) is Ok,
        decreases values@.len() - i,
    {
        proof {
            lemma_first_error_step(cs, i as int);
        }
        let item = indexed(path, i);
        assert(values@[i as int]@ == vs[i as int]);
        if let Err(e) = check_value(rule, values[i].as_str(), item.as_str()) {
            proof {
                lemma_first_error_stop(cs, i + 1);
            }
            return Err(e);
        }
        if repeated_before(values, i) {
            proof {
                lemma_first_error_stop(cs, i + 1);
            }
            let quoted = debug_str(values[i].as_str());
            return Err(concat3(item.as_str(), DUPLICATE_VALUE, quoted.as_str()));
        }
        i += 1;
    }
    proof {
        lemma_first_error_whole(cs);
    }
    Ok(())
}

pub fn validate_string_list(values: &Option<Vec<String>>, path: &str, rule: ValueRule) -> (r: Result<(), String>)
    ensures
        same_outcome(r, string_list_check(*values, path@, rule)),
{
    match values {
        Some(v) => validate_string_values(v, path, rule),
        None => Ok(()),
    }
}


/// The first position whose element equals an earlier one, as `same` tells
/// equality.
pub fn first_repeat_by<T: Copy, F: Fn(T, T) -> bool>(vs: &Vec<T>, same: F) -> (r: Option<usize>)
    requires
        forall|a: T, b: T| #[trigger] same.requires((a, b)),
        forall|a: T, b: T, e: bool| same.ensures((a, b), e) ==> e == (a == b),
    ensures
        match r {
            Some(i) => first_repeat(vs@, 0) == Some(i as int) && i < vs@.len(),
            None => first_repeat(vs@, 0) is None,
        },
{
    let mut i: usize = 0;
    while i < vs.len()
        invariant
            i <= vs@.len(),
            forall|a: T, b: T| #[trigger] same.requires((a, b)),
            forall|a: T, b: T, e: bool| same.ensures((a, b), e) ==> e == (a == b),
            first_repeat(vs@, 0) == first_repeat(vs@, i as int),
        decreases vs@.len() - i,
    {
        let mut j: usize = 0;
        let mut found = false;
        while j < i
            invariant
                j <= i < vs@.len(),
                forall|a: T, b: T| #[trigger] same.requires((a, b)),
                forall|a: T, b: T, e: bool| same.ensures((a, b), e) ==> e == (a == b),
                found == exists|k: int| 0 <= k < j && vs@[k] == vs@[i as int],
            decreases i - j,
        {
            if same(vs[j], vs[i]) {
                found = true;
            }
            j += 1;
        }
        if found {
            return Some(i);
        }
        i += 1;
    }
    None
}


/// The first element of a list of strings that equals an earlier one.
pub fn first_repeated_string(values: &Vec<String>) -> (r: Option<usize>)
    ensures
        match r {
            Some(i) => first_repeat(string_views(values@), 0) == Some(i as int) && i < values@.len(),
            None => first_repeat(string_views(values@), 0) is None,
        },
{
    let ghost vs = string_views(values@);
    let mut i: usize = 0;
    while i < values.len()
        invariant
            i <= values@.len(),
            vs == string_views(values@),
            first_repeat(vs, 0) == first_repeat(vs, i as int),
        decreases values@.len() - i,
    {
        if repeated_before(values, i) {
            return Some(i);
        }
        i += 1;
    }
    None
}

} // verus!
