//! Migration of APT source files to a managed official base source.
//!
//! `reconcile` takes the current source files and says which ones must
//! change: official base entries are removed from one-line (`.list`) and
//! deb822 (`.sources`) files, everything else is kept byte for byte, and the
//! owned source file holds exactly the policy's rendering, published last.
pub mod convergence;
pub mod discovery;

use vstd::prelude::*;
use crate::platform::{
    debian_name, deb822_text, managed_sources_valid, managed_apt_sources, managed_stanzas,
    Architecture, ManagedAptSources, ManagedAptSourcesView,
};
use crate::text::{
    join_lines, all_chars, alnum, chars_of, ends_with, message, parse_unsigned, parsed_unsigned,
    push_char, trim_end, trim_end_chars, eq_chars, eq_ignore_case, eq_str, first_index,
    first_index_of, has_prefix, has_suffix, is_alnum, join, join_strings, lines, lines_of,
    slice_to_vec, split, split_chars, split_str, split_str_chars, starts_with, string_of,
    string_views, to_lower, lowercase_chars, trim, trim_chars, trim_end_char, trim_end_char_chars,
    trim_start, trim_start_chars, views, words, words_of,
};
use crate::weburl::{parse_url, replace_path, url_parse, url_with_path, HOST_NONE};
use crate::paths::{
    extension_of, file_name_of, parent_of, path_extension, path_file_name, path_parent, paths_equal, same_path,
};

verus! {

/// The source file that the managed policy owns.
pub const OWNED_SOURCE: &'static str = "/etc/apt/sources.list.d/cozydot-base.sources";

pub const PARSE_LINE_ERROR: &'static str = "parse active one-line APT source";

pub const LINE_MODIFIER_ERROR: &'static str = "managed APT cannot safely migrate an official one-line source with architecture add/remove modifiers";

pub const RELEASE_ERROR: &'static str = "managed APT found an official base source for an unexpected release or pocket";

pub const EXTENSION_ERROR: &'static str = "managed APT source has an unsupported extension";

pub const ENABLED_ERROR: &'static str = "deb822 source has an invalid Enabled value";

pub const MISSING_URIS_ERROR: &'static str = "active deb822 APT source is missing URIs";

pub const MISSING_SUITES_ERROR: &'static str = "active deb822 APT source is missing Suites";

pub const DEB822_MODIFIER_ERROR: &'static str = "managed APT cannot safely migrate an official deb822 source with architecture add/remove fields";

pub const MIXED_ERROR: &'static str = "managed APT cannot safely split a deb822 stanza mixing official and unrelated URIs";

pub const CONTINUATION_ERROR: &'static str = "deb822 continuation has no field";

pub const FIELD_ERROR: &'static str = "deb822 source has malformed field";

pub const FIELD_NAME_ERROR: &'static str = "deb822 source has malformed field name";

pub const DUPLICATE_FIELD_ERROR: &'static str = "deb822 source has a duplicate field";

pub const DUPLICATE_TYPES_ERROR: &'static str = "deb822 source has duplicate Types fields";

pub const MISSING_TYPES_ERROR: &'static str = "deb822 source is missing Types";

pub const URI_MALFORMED_ERROR: &'static str = "APT source URI is malformed";

pub const URI_UNSUPPORTED_ERROR: &'static str = "APT source URI is unsupported";

/// The operation that converges the host's base sources on a managed policy.
#[derive(Debug)]
pub struct ManagedAptSourcesOperation {
    pub policy: ManagedAptSources,
}

impl ManagedAptSourcesOperation {
    /// The operation for `distro` at `release` on `architecture` with
    /// `components`; it fails where no managed policy exists for them.
    pub fn new(
        distro: String,
        release: String,
        architecture: Architecture,
        components: Vec<String>,
    ) -> (r: Result<Self, String>)
        ensures
            r is Ok <==> managed_sources_valid(distro@, release@, string_views(components@)),
            r matches Ok(op) ==> op.policy@ == (ManagedAptSourcesView {
                distro: distro@,
                release: release@,
                architecture: architecture,
                components: string_views(components@),
                stanzas: managed_stanzas(distro@, release@, architecture, string_views(components@)),
            }),
    {
        let policy = managed_apt_sources(distro.as_str(), release.as_str(), architecture, &components)?;
        Ok(ManagedAptSourcesOperation { policy })
    }

    /// The words that describe the operation in a plan listing.
    pub fn display_args(&self) -> (r: Vec<String>)
        ensures
            string_views(r@) == seq![
                "managed-apt-sources"@,
                self.policy.distro@,
                self.policy.release@,
                crate::platform::canonical_name(self.policy.architecture),
            ],
    {
        let r = vec![
            "managed-apt-sources".to_owned(),
            self.policy.distro.clone(),
            self.policy.release.clone(),
            self.policy.architecture.canonical().to_owned(),
        ];
        assert(string_views(r@) =~= seq![
            "managed-apt-sources"@,
            self.policy.distro@,
            self.policy.release@,
            crate::platform::canonical_name(self.policy.architecture),
        ]);
        r
    }
}

/// A source file as read from the host.
#[derive(Debug)]
pub struct SourceFile {
    pub path: String,
    pub text: String,
}

pub struct SourceFileView {
    pub path: Seq<char>,
    pub text: Seq<char>,
}

impl View for SourceFile {
    type V = SourceFileView;

    open spec fn view(&self) -> SourceFileView {
        SourceFileView { path: self.path@, text: self.text@ }
    }
}

/// A change to one source file: its previous text (if it existed) and its replacement.
#[derive(Debug)]
pub struct SourceChange {
    pub path: String,
    pub existed: bool,
    pub original: String,
    pub replacement: String,
}

pub struct SourceChangeView {
    pub path: Seq<char>,
    pub existed: bool,
    pub original: Seq<char>,
    pub replacement: Seq<char>,
}

impl View for SourceChange {
    type V = SourceChangeView;

    open spec fn view(&self) -> SourceChangeView {
        SourceChangeView {
            path: self.path@,
            existed: self.existed,
            original: self.original@,
            replacement: self.replacement@,
        }
    }
}

// ---------------------------------------------------------------- URIs

/// The URI as the official alias lists write it: http(s) URIs parsed and
/// reserialized without trailing slashes; other URIs unchanged.
pub open spec fn normalized_uri(value: Seq<char>) -> Result<Seq<char>, Seq<char>> {
    if !(has_prefix(value, "http://"@) || has_prefix(value, "https://"@)) {
        Ok(value)
    } else {
        match url_parse(value) {
            None => Err(URI_MALFORMED_ERROR@),
            Some(u) => if !(u.scheme == "http"@ || u.scheme == "https"@) || u.host_kind == HOST_NONE
                || u.username.len() > 0 || u.has_password || u.has_query || u.has_fragment {
                Err(URI_UNSUPPORTED_ERROR@)
            } else {
                let path = trim_end_char(u.path, '/');
                let path = if path.len() == 0 {
                    "/"@
                } else {
                    path
                };
                match url_with_path(value, path) {
                    None => Err(URI_MALFORMED_ERROR@),
                    Some(s) => Ok(trim_end_char(s, '/')),
                }
            },
        }
    }
}

pub fn normalize_uri(value: &[char]) -> (r: Result<Vec<char>, String>)
    ensures
        match r {
            Ok(v) => normalized_uri(value@) == Ok::<Seq<char>, Seq<char>>(v@),
            Err(e) => normalized_uri(value@) == Err::<Seq<char>, Seq<char>>(e@),
        },
{
    let http = chars_of("http://");
    let https = chars_of("https://");
    if !(starts_with(value, &http) || starts_with(value, &https)) {
        let same = slice_to_vec(value, 0, value.len());
        assert(same@ =~= value@);
        return Ok(same);
    }
    let text = string_of(value);
    let parsed = match parse_url(text.as_str()) {
        None => {
            return Err(URI_MALFORMED_ERROR.to_owned());
        },
        Some(u) => u,
    };
    let scheme = chars_of(parsed.scheme.as_str());
    let user = chars_of(parsed.username.as_str());
    if !(eq_str(&scheme, "http") || eq_str(&scheme, "https")) || parsed.host_kind == HOST_NONE
        || user.len() > 0 || parsed.has_password || parsed.has_query || parsed.has_fragment {
        return Err(URI_UNSUPPORTED_ERROR.to_owned());
    }
    let path_chars = chars_of(parsed.path.as_str());
    let trimmed = trim_end_char_chars(&path_chars, '/');
    let path = if trimmed.len() == 0 {
        "/".to_owned()
    } else {
        string_of(&trimmed)
    };
    match replace_path(text.as_str(), path.as_str()) {
        None => Err(URI_MALFORMED_ERROR.to_owned()),
        Some(s) => {
            let sc = chars_of(s.as_str());
            Ok(trim_end_char_chars(&sc, '/'))
        },
    }
}

/// The official archive URIs of the policy's distribution.
pub open spec fn official_uri(distro: Seq<char>, uri: Seq<char>) -> bool {
    if distro == "ubuntu"@ {
        uri == "http://archive.ubuntu.com/ubuntu"@ || uri == "https://archive.ubuntu.com/ubuntu"@
            || uri == "http://security.ubuntu.com/ubuntu"@ || uri
            == "https://security.ubuntu.com/ubuntu"@ || uri == "http://ports.ubuntu.com/ubuntu-ports"@
            || uri == "https://ports.ubuntu.com/ubuntu-ports"@
    } else if distro == "debian"@ {
        uri == "http://deb.debian.org/debian"@ || uri == "https://deb.debian.org/debian"@ || uri
            == "http://deb.debian.org/debian-security"@ || uri
            == "https://deb.debian.org/debian-security"@ || uri
            == "http://security.debian.org/debian-security"@ || uri
            == "https://security.debian.org/debian-security"@
    } else if distro == "kali"@ {
        uri == "http://http.kali.org/kali"@ || uri == "https://http.kali.org/kali"@
    } else {
        false
    }
}

fn is_official_uri(distro: &[char], uri: &[char]) -> (r: bool)
    ensures
        r == official_uri(distro@, uri@),
{
    if eq_str(distro, "ubuntu") {
        eq_str(uri, "http://archive.ubuntu.com/ubuntu") || eq_str(uri, "https://archive.ubuntu.com/ubuntu")
            || eq_str(uri, "http://security.ubuntu.com/ubuntu") || eq_str(
            uri,
            "https://security.ubuntu.com/ubuntu",
        ) || eq_str(uri, "http://ports.ubuntu.com/ubuntu-ports") || eq_str(
            uri,
            "https://ports.ubuntu.com/ubuntu-ports",
        )
    } else if eq_str(distro, "debian") {
        eq_str(uri, "http://deb.debian.org/debian") || eq_str(uri, "https://deb.debian.org/debian")
            || eq_str(uri, "http://deb.debian.org/debian-security") || eq_str(
            uri,
            "https://deb.debian.org/debian-security",
        ) || eq_str(uri, "http://security.debian.org/debian-security") || eq_str(
            uri,
            "https://security.debian.org/debian-security",
        )
    } else if eq_str(distro, "kali") {
        eq_str(uri, "http://http.kali.org/kali") || eq_str(uri, "https://http.kali.org/kali")
    } else {
        false
    }
}

/// Is `s` one of the suites that the policy's stanzas publish?
pub open spec fn policy_suite(p: ManagedAptSourcesView, s: Seq<char>) -> bool {
    exists|j: int, k: int|
        0 <= j < p.stanzas.len() && 0 <= k < p.stanzas[j].suites.len() && #[trigger] p.stanzas[j].suites[k] == s
}

/// Official entries may name only the policy's own suites.
pub open spec fn suites_expected(p: ManagedAptSourcesView, suites: Seq<Seq<char>>) -> bool {
    suites.len() > 0 && forall|i: int| 0 <= i < suites.len() ==> policy_suite(p, #[trigger] suites[i])
}

fn has_policy_suite(policy: &ManagedAptSources, s: &[char]) -> (r: bool)
    ensures
        r == policy_suite(policy@, s@),
{
    let mut j: usize = 0;
    while j < policy.stanzas.len()
        invariant
            j <= policy.stanzas@.len(),
            forall|a: int, k: int|
                0 <= a < j && 0 <= k < policy@.stanzas[a].suites.len() ==> policy@.stanzas[a].suites[k]
                    != s@,
        decreases policy.stanzas@.len() - j,
    {
        let stanza = &policy.stanzas[j];
        let mut k: usize = 0;
        while k < stanza.suites.len()
            invariant
                j < policy.stanzas@.len(),
                *stanza == policy.stanzas@[j as int],
                k <= stanza.suites@.len(),
                forall|a: int, x: int|
                    0 <= a < j && 0 <= x < policy@.stanzas[a].suites.len() ==> policy@.stanzas[a].suites[x]
                        != s@,
                forall|x: int| 0 <= x < k ==> policy@.stanzas[j as int].suites[x] != s@,
            decreases stanza.suites@.len() - k,
        {
            let candidate = chars_of(stanza.suites[k].as_str());
            if eq_chars(&candidate, s) {
                assert(policy@.stanzas[j as int].suites[k as int] == s@);
                return true;
            }
            k += 1;
        }
        j += 1;
    }
    false
}

fn validate_official_suites(policy: &ManagedAptSources, suites: &Vec<Vec<char>>) -> (r: Result<(), String>)
    ensures
        r is Ok <==> suites_expected(policy@, views(suites@)),
        r matches Err(e) ==> e@ == RELEASE_ERROR@,
{
    if suites.len() == 0 {
        return Err(RELEASE_ERROR.to_owned());
    }
    let mut i: usize = 0;
    while i < suites.len()
        invariant
            i <= suites@.len(),
            forall|x: int| 0 <= x < i ==> policy_suite(policy@, #[trigger] views(suites@)[x]),
        decreases suites@.len() - i,
    {
        if !has_policy_suite(policy, &suites[i]) {
            assert(!policy_suite(policy@, views(suites@)[i as int]));
            return Err(RELEASE_ERROR.to_owned());
        }
        i += 1;
    }
    Ok(())
}

// ---------------------------------------------------------------- one-line sources

/// A parsed active one-line `deb` entry.
pub struct ListEntryView {
    pub uri: Seq<char>,
    pub suites: Seq<Seq<char>>,
    pub architectures: Option<Seq<Seq<char>>>,
    pub architecture_modifiers: bool,
}

struct ListEntry {
    uri: Vec<char>,
    suites: Vec<Vec<char>>,
    architectures: Option<Vec<Vec<char>>>,
    architecture_modifiers: bool,
}

impl ListEntry {
    spec fn view(&self) -> ListEntryView {
        ListEntryView {
            uri: self.uri@,
            suites: views(self.suites@),
            architectures: match self.architectures {
                Some(a) => Some(views(a@)),
                None => None,
            },
            architecture_modifiers: self.architecture_modifiers,
        }
    }
}

/// An architecture name that is empty or holds a character other than a letter or digit.
pub open spec fn malformed_architecture(w: Seq<char>) -> bool {
    w.len() == 0 || !(forall|k: int| 0 <= k < w.len() ==> is_alnum(w[k]))
}

/// The values of an `arch=` option: comma-separated non-empty alphanumeric names.
pub open spec fn parsed_architectures(value: Seq<char>) -> Option<Seq<Seq<char>>> {
    let values = split(value, ',');
    if exists|i: int| 0 <= i < values.len() && #[trigger] malformed_architecture(values[i]) {
        None
    } else {
        Some(values)
    }
}

fn alnum_only(s: &[char]) -> (r: bool)
    ensures
        r == (forall|k: int| 0 <= k < s@.len() ==> is_alnum(s@[k])),
{
    let f = |c: char| -> (b: bool)
        ensures
            b == is_alnum(c),
        { alnum(c) };
    all_chars(s, f, Ghost(|c: char| is_alnum(c)))
}

fn parse_architectures(value: &[char]) -> (r: Option<Vec<Vec<char>>>)
    ensures
        match r {
            Some(v) => parsed_architectures(value@) == Some(views(v@)),
            None => parsed_architectures(value@) is None,
        },
{
    let values = split_chars(value, ',');
    let ghost vs = split(value@, ',');
    let mut i: usize = 0;
    while i < values.len()
        invariant
            i <= values@.len(),
            views(values@) == vs,
            vs == split(value@, ','),
            forall|x: int| 0 <= x < i ==> !(#[trigger] malformed_architecture(vs[x])),
        decreases values@.len() - i,
    {
        let ok = values[i].len() > 0 && alnum_only(&values[i]);
        if !ok {
            assert(vs[i as int] == values@[i as int]@);
            assert(malformed_architecture(vs[i as int]));
            return None;
        }
        i += 1;
    }
    Some(values)
}

/// The options of a bracketed option list: the last `arch=` value, and
/// whether any `arch+=`/`arch-=` modifier occurs; `None` where an `arch=`
/// value is malformed.
pub open spec fn options_state(ws: Seq<Seq<char>>) -> Option<(Option<Seq<Seq<char>>>, bool)>
    decreases ws.len(),
{
    if ws.len() == 0 {
        Some((None, false))
    } else {
        match options_state(ws.drop_last()) {
            None => None,
            Some((archs, mods)) => {
                let w = ws.last();
                if has_prefix(w, "arch="@) {
                    match parsed_architectures(w.skip("arch="@.len() as int)) {
                        None => None,
                        Some(a) => Some((Some(a), mods)),
                    }
                } else if has_prefix(w, "arch+="@) || has_prefix(w, "arch-="@) {
                    Some((archs, true))
                } else {
                    Some((archs, mods))
                }
            },
        }
    }
}

/// The entry fields that follow the options: URI, suite, components.
pub open spec fn entry_fields(rest: Seq<char>, archs: Option<Seq<Seq<char>>>, mods: bool) -> Option<ListEntryView> {
    let f = words(rest);
    if f.len() < 3 {
        None
    } else {
        match normalized_uri(f[0]) {
            Err(_) => None,
            Ok(uri) => Some(
                ListEntryView { uri, suites: seq![f[1]], architectures: archs, architecture_modifiers: mods },
            ),
        }
    }
}

/// An active one-line entry `deb [options] uri suite components...`.
pub open spec fn parsed_list_entry(active: Seq<char>) -> Option<ListEntryView> {
    if !has_prefix(active, "deb"@) {
        None
    } else {
        parsed_list_rest(trim_start(active.skip("deb"@.len() as int)))
    }
}

/// The part of a one-line entry after `deb`, without leading whitespace.
pub open spec fn parsed_list_rest(rest: Seq<char>) -> Option<ListEntryView> {
    if rest.len() > 0 && rest[0] == '[' {
        match first_index(rest, ']') {
            None => None,
            Some(end) => match options_state(words(rest.subrange(1, end))) {
                None => None,
                Some((archs, mods)) => entry_fields(trim_start(rest.skip(end + 1)), archs, mods),
            },
        }
    } else {
        entry_fields(rest, None, false)
    }
}

proof fn lemma_options_none(ws: Seq<Seq<char>>, i: int)
    requires
        0 <= i <= ws.len(),
        options_state(ws.take(i)) is None,
    ensures
        options_state(ws) is None,
    decreases ws.len(),
{
    if ws.len() == i {
        assert(ws.take(i) =~= ws);
    } else {
        assert(ws.drop_last().take(i) =~= ws.take(i));
        lemma_options_none(ws.drop_last(), i);
    }
}

fn parse_options(ws: &Vec<Vec<char>>) -> (r: Option<(Option<Vec<Vec<char>>>, bool)>)
    ensures
        match r {
            None => options_state(views(ws@)) is None,
            Some((a, m)) => options_state(views(ws@)) == Some(
                (
                    match a {
                        Some(x) => Some(views(x@)),
                        None => None::<Seq<Seq<char>>>,
                    },
                    m,
                ),
            ),
        },
{
    let arch = chars_of("arch=");
    let plus = chars_of("arch+=");
    let minus = chars_of("arch-=");
    let mut archs: Option<Vec<Vec<char>>> = None;
    let mut mods = false;
    let mut i: usize = 0;
    while i < ws.len()
        invariant
            i <= ws@.len(),
            arch@ == "arch="@,
            plus@ == "arch+="@,
            minus@ == "arch-="@,
            options_state(views(ws@).take(i as int)) == Some(
                (
                    match archs {
                        Some(x) => Some(views(x@)),
                        None => None::<Seq<Seq<char>>>,
                    },
                    mods,
                ),
            ),
        decreases ws@.len() - i,
    {
        let w = &ws[i];
        assert(views(ws@).take(i + 1).drop_last() =~= views(ws@).take(i as int));
        assert(views(ws@).take(i + 1).last() == w@);
        if starts_with(w, &arch) {
            let value = slice_to_vec(w, arch.len(), w.len());
            assert(value@ =~= w@.skip("arch="@.len() as int));
            match parse_architectures(&value) {
                None => {
                    proof {
                        lemma_options_none(views(ws@), i + 1);
                    }
                    return None;
                },
                Some(a) => {
                    archs = Some(a);
                },
            }
        } else if starts_with(w, &plus) || starts_with(w, &minus) {
            mods = true;
        }
        i += 1;
    }
    assert(views(ws@).take(i as int) =~= views(ws@));
    Some((archs, mods))
}

fn parse_entry_fields(rest: &[char], archs: Option<Vec<Vec<char>>>, mods: bool) -> (r: Option<ListEntry>)
    ensures
        match r {
            None => entry_fields(
                rest@,
                match archs {
                    Some(x) => Some(views(x@)),
                    None => None::<Seq<Seq<char>>>,
                },
                mods,
            ) is None,
            Some(e) => entry_fields(
                rest@,
                match archs {
                    Some(x) => Some(views(x@)),
                    None => None::<Seq<Seq<char>>>,
                },
                mods,
            ) == Some(e.view()),
        },
{
    let fields = words_of(rest);
    if fields.len() < 3 {
        return None;
    }
    assert(views(fields@)[0] == fields@[0]@);
    assert(views(fields@)[1] == fields@[1]@);
    match normalize_uri(&fields[0]) {
        Err(_) => None,
        Ok(uri) => {
            let suite = fields[1].clone();
            let suites = vec![suite];
            assert(views(suites@) =~= seq![views(fields@)[1]]);
            Some(ListEntry { uri, suites, architectures: archs, architecture_modifiers: mods })
        },
    }
}

fn parse_list_entry(active: &[char]) -> (r: Option<ListEntry>)
    ensures
        match r {
            None => parsed_list_entry(active@) is None,
            Some(e) => parsed_list_entry(active@) == Some(e.view()),
        },
{
    let deb = chars_of("deb");
    if !starts_with(active, &deb) {
        return None;
    }
    proof {
        reveal_strlit("deb");
    }
    let after = slice_to_vec(active, 3, active.len());
    let rest = trim_start_chars(&after);
    if rest.len() > 0 && rest[0] == '[' {
        match first_index_of(&rest, ']') {
            None => None,
            Some(end) => {
                let inner = slice_to_vec(&rest, 1, end);
                let options = words_of(&inner);
                match parse_options(&options) {
                    None => None,
                    Some((archs, mods)) => {
                        let tail = slice_to_vec(&rest, end + 1, rest.len());
                        let fields = trim_start_chars(&tail);
                        parse_entry_fields(&fields, archs, mods)
                    },
                }
            },
        }
    } else {
        parse_entry_fields(&rest, None, false)
    }
}

pub open spec fn entry_applies(archs: Option<Seq<Seq<char>>>, a: Architecture) -> bool {
    match archs {
        None => true,
        Some(values) => values.contains(debian_name(a)),
    }
}

fn contains_word(values: &Vec<Vec<char>>, word: &[char]) -> (r: bool)
    ensures
        r == views(values@).contains(word@),
{
    let mut i: usize = 0;
    while i < values.len()
        invariant
            i <= values@.len(),
            forall|k: int| 0 <= k < i ==> views(values@)[k] != word@,
        decreases values@.len() - i,
    {
        if eq_chars(&values[i], word) {
            assert(views(values@)[i as int] == word@);
            return true;
        }
        i += 1;
    }
    false
}

/// What happens to one line of a one-line source file: kept (`Ok(true)`),
/// dropped (`Ok(false)`), or the migration refused.
pub open spec fn list_line(p: ManagedAptSourcesView, body: Seq<char>) -> Result<bool, Seq<char>> {
    let active = trim(split(body, '#')[0]);
    let w = words(active);
    if w.len() == 0 || w[0] != "deb"@ {
        Ok(true)
    } else {
        match parsed_list_entry(active) {
            None => Err(PARSE_LINE_ERROR@),
            Some(e) => if official_uri(p.distro, e.uri) && e.architecture_modifiers {
                Err(LINE_MODIFIER_ERROR@)
            } else if entry_applies(e.architectures, p.architecture) && official_uri(p.distro, e.uri) {
                if suites_expected(p, e.suites) {
                    Ok(false)
                } else {
                    Err(RELEASE_ERROR@)
                }
            } else {
                Ok(true)
            },
        }
    }
}

fn list_line_exec(policy: &ManagedAptSources, body: &[char]) -> (r: Result<bool, String>)
    ensures
        match r {
            Ok(k) => list_line(policy@, body@) == Ok::<bool, Seq<char>>(k),
            Err(e) => list_line(policy@, body@) == Err::<bool, Seq<char>>(e@),
        },
{
    let parts = split_chars(body, '#');
    assert(views(parts@)[0] == parts@[0]@);
    let active = trim_chars(&parts[0]);
    let w = words_of(&active);
    if w.len() == 0 || !eq_str(&w[0], "deb") {
        proof {
            if w@.len() > 0 {
                assert(views(w@)[0] == w@[0]@);
            }
        }
        return Ok(true);
    }
    assert(views(w@)[0] == w@[0]@);
    let entry = match parse_list_entry(&active) {
        None => {
            return Err(PARSE_LINE_ERROR.to_owned());
        },
        Some(e) => e,
    };
    let distro = chars_of(policy.distro.as_str());
    let official = is_official_uri(&distro, &entry.uri);
    if official && entry.architecture_modifiers {
        return Err(LINE_MODIFIER_ERROR.to_owned());
    }
    let applies = match &entry.architectures {
        None => true,
        Some(values) => {
            let name = chars_of(policy.architecture.debian());
            contains_word(values, &name)
        },
    };
    if applies && official {
        validate_official_suites(policy, &entry.suites)?;
        return Ok(false);
    }
    Ok(true)
}

/// The text of a one-line source file after migration: the lines of
/// `parts` (the file split at `\n`) up to `n`, each kept or dropped by
/// `list_line`; the first refused line decides the error.
pub open spec fn list_fold(p: ManagedAptSourcesView, parts: Seq<Seq<char>>, n: int) -> Result<Seq<char>, Seq<char>>
    decreases n,
{
    if n <= 0 {
        Ok(Seq::empty())
    } else {
        match list_fold(p, parts, n - 1) {
            Err(e) => Err(e),
            Ok(out) => {
                let body = parts[n - 1];
                let last = n - 1 == parts.len() - 1;
                if last && body.len() == 0 {
                    Ok(out)
                } else {
                    match list_line(p, body) {
                        Err(e) => Err(e),
                        Ok(keep) => Ok(
                            if !keep {
                                out
                            } else if last {
                                out + body
                            } else {
                                out + body.push('\n')
                            },
                        ),
                    }
                }
            },
        }
    }
}

proof fn lemma_list_fold_err(p: ManagedAptSourcesView, parts: Seq<Seq<char>>, k: int, n: int)
    requires
        0 <= k <= n,
        list_fold(p, parts, k) is Err,
    ensures
        list_fold(p, parts, n) == list_fold(p, parts, k),
    decreases n - k,
{
    if n > k {
        lemma_list_fold_err(p, parts, k, n - 1);
    }
}

pub open spec fn reconciled_list(p: ManagedAptSourcesView, text: Seq<char>) -> Result<Seq<char>, Seq<char>> {
    list_fold(p, split(text, '\n'), split(text, '\n').len() as int)
}

/// Removes the active official entries for the policy's architecture from a
/// one-line source file, keeping every other line as it was.
pub fn reconcile_list(policy: &ManagedAptSources, text: &str) -> (r: Result<String, String>)
    ensures
        match r {
            Ok(out) => reconciled_list(policy@, text@) == Ok::<Seq<char>, Seq<char>>(out@),
            Err(e) => reconciled_list(policy@, text@) == Err::<Seq<char>, Seq<char>>(e@),
        },
{
    let t = chars_of(text);
    let parts = split_chars(&t, '\n');
    let ghost pv = split(text@, '\n');
    let mut out = String::new();
    let mut i: usize = 0;
    while i < parts.len()
        invariant
            i <= parts@.len(),
            views(parts@) == pv,
            pv == split(text@, '\n'),
            pv.len() == parts@.len(),
            list_fold(policy@, pv, i as int) == Ok::<Seq<char>, Seq<char>>(out@),
        decreases parts@.len() - i,
    {
        let body = &parts[i];
        assert(pv[i as int] == body@);
        let last = i + 1 == parts.len();
        if !(last && body.len() == 0) {
            let keep = match list_line_exec(policy, body) {
                Ok(k) => k,
                Err(e) => {
                    proof {
                        assert(list_fold(policy@, pv, i + 1) == Err::<Seq<char>, Seq<char>>(e@));
                        lemma_list_fold_err(policy@, pv, i + 1, pv.len() as int);
                    }
                    return Err(e);
                },
            };
            if keep {
                let piece = string_of(body);
                out.append(piece.as_str());
                if !last {
                    out.append("\n");
                    proof {
                        reveal_strlit("\n");
                    }
                    assert(out@ =~= list_fold(policy@, pv, i as int)->Ok_0 + body@.push('\n'));
                }
            }
        }
        i += 1;
    }
    Ok(out)
}

// ---------------------------------------------------------------- deb822 sources

/// A line that continues the previous field's value.
pub open spec fn indented(line: Seq<char>) -> bool {
    line.len() > 0 && (line[0] == ' ' || line[0] == '\t')
}

pub open spec fn is_field_name_char(c: char) -> bool {
    is_alnum(c) || c == '-'
}

/// The fields of a deb822 paragraph, in order, by lower-case name.
pub open spec fn field_views(v: Seq<(Vec<char>, Vec<char>)>) -> Seq<(Seq<char>, Seq<char>)> {
    v.map_values(|f: (Vec<char>, Vec<char>)| (f.0@, f.1@))
}

/// The value of the field named `key`, if the paragraph has one.
pub open spec fn field_lookup(fs: Seq<(Seq<char>, Seq<char>)>, key: Seq<char>) -> Option<Seq<char>>
    decreases fs.len(),
{
    if fs.len() == 0 {
        None
    } else if fs.last().0 == key {
        Some(fs.last().1)
    } else {
        field_lookup(fs.drop_last(), key)
    }
}

/// One line of a deb822 paragraph read into the fields so far: blank lines
/// and comments are skipped, an indented line extends the last field, and
/// any other line must be `Name: value` with a new name.
pub open spec fn field_step(fs: Seq<(Seq<char>, Seq<char>)>, line: Seq<char>) -> Result<Seq<(Seq<char>, Seq<char>)>, Seq<char>> {
    if trim(line).len() == 0 || (line.len() > 0 && line[0] == '#') {
        Ok(fs)
    } else if indented(line) {
        if fs.len() == 0 {
            Err(CONTINUATION_ERROR@)
        } else {
            Ok(fs.update(fs.len() - 1, (fs.last().0, fs.last().1.push(' ') + trim(line))))
        }
    } else {
        match first_index(line, ':') {
            None => Err(FIELD_ERROR@),
            Some(c) => {
                let name = line.take(c);
                if name.len() == 0 || !(forall|k: int| 0 <= k < name.len() ==> is_field_name_char(name[k])) {
                    Err(FIELD_NAME_ERROR@)
                } else if field_lookup(fs, to_lower(name)) is Some {
                    Err(DUPLICATE_FIELD_ERROR@)
                } else {
                    Ok(fs.push((to_lower(name), trim(line.skip(c + 1)))))
                }
            },
        }
    }
}

pub open spec fn fields_fold(ls: Seq<Seq<char>>, n: int) -> Result<Seq<(Seq<char>, Seq<char>)>, Seq<char>>
    decreases n,
{
    if n <= 0 {
        Ok(Seq::empty())
    } else {
        match fields_fold(ls, n - 1) {
            Err(e) => Err(e),
            Ok(fs) => field_step(fs, ls[n - 1]),
        }
    }
}

/// The fields of a deb822 paragraph, or the error that refuses it.
pub open spec fn deb822_fields(paragraph: Seq<char>) -> Result<Seq<(Seq<char>, Seq<char>)>, Seq<char>> {
    fields_fold(lines(paragraph), lines(paragraph).len() as int)
}

proof fn lemma_fields_fold_err(ls: Seq<Seq<char>>, k: int, n: int)
    requires
        0 <= k <= n,
        fields_fold(ls, k) is Err,
    ensures
        fields_fold(ls, n) == fields_fold(ls, k),
    decreases n - k,
{
    if n > k {
        lemma_fields_fold_err(ls, k, n - 1);
    }
}

fn lookup_field(fs: &Vec<(Vec<char>, Vec<char>)>, key: &[char]) -> (r: Option<Vec<char>>)
    ensures
        match r {
            Some(v) => field_lookup(field_views(fs@), key@) == Some(v@),
            None => field_lookup(field_views(fs@), key@) is None,
        },
{
    let mut j: usize = fs.len();
    assert(field_views(fs@).take(j as int) =~= field_views(fs@));
    while j > 0
        invariant
            j <= fs@.len(),
            field_lookup(field_views(fs@), key@) == field_lookup(field_views(fs@).take(j as int), key@),
        decreases j,
    {
        let ghost fv = field_views(fs@).take(j as int);
        assert(fv.drop_last() =~= field_views(fs@).take(j - 1));
        assert(fv.last() == (fs@[j - 1].0@, fs@[j - 1].1@));
        if eq_chars(&fs[j - 1].0, key) {
            return Some(fs[j - 1].1.clone());
        }
        j -= 1;
    }
    None
}

fn field_name_only(s: &[char]) -> (r: bool)
    ensures
        r == (forall|k: int| 0 <= k < s@.len() ==> is_field_name_char(s@[k])),
{
    let f = |c: char| -> (b: bool)
        ensures
            b == is_field_name_char(c),
        { alnum(c) || c == '-' };
    all_chars(s, f, Ghost(|c: char| is_field_name_char(c)))
}

#[verifier::rlimit(40)]
fn field_step_exec(fs: Vec<(Vec<char>, Vec<char>)>, line: &[char]) -> (r: Result<Vec<(Vec<char>, Vec<char>)>, String>)
    ensures
        match r {
            Ok(n) => field_step(field_views(fs@), line@) == Ok::<Seq<(Seq<char>, Seq<char>)>, Seq<char>>(field_views(n@)),
            Err(e) => field_step(field_views(fs@), line@) == Err::<Seq<(Seq<char>, Seq<char>)>, Seq<char>>(e@),
        },
{
    let mut fs = fs;
    let t = trim_chars(line);
    if t.len() == 0 || (line.len() > 0 && line[0] == '#') {
        return Ok(fs);
    }
    if line.len() > 0 && (line[0] == ' ' || line[0] == '\t') {
        if fs.len() == 0 {
            return Err(CONTINUATION_ERROR.to_owned());
        }
        let ghost before = field_views(fs@);
        let (key, mut value) = fs.pop().unwrap();
        value.push(' ');
        let mut i: usize = 0;
        let ghost base = value@;
        while i < t.len()
            invariant
                i <= t@.len(),
                value@ == base + t@.take(i as int),
            decreases t@.len() - i,
        {
            value.push(t[i]);
            i += 1;
            assert(value@ =~= base + t@.take(i as int));
        }
        assert(t@.take(i as int) =~= t@);
        fs.push((key, value));
        assert(field_views(fs@) =~= before.update(before.len() - 1, (before.last().0, before.last().1.push(' ') + trim(line@))));
        return Ok(fs);
    }
    match first_index_of(line, ':') {
        None => Err(FIELD_ERROR.to_owned()),
        Some(c) => {
            let name = slice_to_vec(line, 0, c);
            assert(name@ =~= line@.take(c as int));
            if name.len() == 0 || !field_name_only(&name) {
                return Err(FIELD_NAME_ERROR.to_owned());
            }
            let key = lowercase_chars(&name);
            if lookup_field(&fs, &key).is_some() {
                return Err(DUPLICATE_FIELD_ERROR.to_owned());
            }
            let rest = slice_to_vec(line, c + 1, line.len());
            assert(rest@ =~= line@.skip(c + 1));
            let value = trim_chars(&rest);
            let ghost before = field_views(fs@);
            fs.push((key, value));
            assert(field_views(fs@) =~= before.push((to_lower(name@), trim(line@.skip(c + 1)))));
            Ok(fs)
        },
    }
}

fn parse_deb822_fields(paragraph: &[char]) -> (r: Result<Vec<(Vec<char>, Vec<char>)>, String>)
    ensures
        match r {
            Ok(fs) => deb822_fields(paragraph@) == Ok::<Seq<(Seq<char>, Seq<char>)>, Seq<char>>(field_views(fs@)),
            Err(e) => deb822_fields(paragraph@) == Err::<Seq<(Seq<char>, Seq<char>)>, Seq<char>>(e@),
        },
{
    let ls = lines_of(paragraph);
    let ghost lv = lines(paragraph@);
    let mut fs: Vec<(Vec<char>, Vec<char>)> = Vec::new();
    let mut i: usize = 0;
    assert(field_views(fs@) =~= Seq::<(Seq<char>, Seq<char>)>::empty());
    while i < ls.len()
        invariant
            i <= ls@.len(),
            views(ls@) == lv,
            lv == lines(paragraph@),
            fields_fold(lv, i as int) == Ok::<Seq<(Seq<char>, Seq<char>)>, Seq<char>>(field_views(fs@)),
        decreases ls@.len() - i,
    {
        assert(lv[i as int] == ls@[i as int]@);
        fs = match field_step_exec(fs, &ls[i]) {
            Ok(n) => n,
            Err(e) => {
                proof {
                    lemma_fields_fold_err(lv, i + 1, lv.len() as int);
                }
                return Err(e);
            },
        };
        i += 1;
    }
    Ok(fs)
}

/// The state of the `Types` rewrite after some lines: the lines written so
/// far, whether continuation lines of `Types` are being dropped, and whether
/// a `Types` field was found.
pub open spec fn types_fold(ls: Seq<Seq<char>>, n: int, repl: Seq<char>) -> Result<(Seq<Seq<char>>, bool, bool), Seq<char>>
    decreases n,
{
    if n <= 0 {
        Ok((Seq::empty(), false, false))
    } else {
        match types_fold(ls, n - 1, repl) {
            Err(e) => Err(e),
            Ok(state) => types_step(state, ls[n - 1], repl),
        }
    }
}

/// One line of the `Types` rewrite.
pub open spec fn types_step(state: (Seq<Seq<char>>, bool, bool), line: Seq<char>, repl: Seq<char>) -> Result<(Seq<Seq<char>>, bool, bool), Seq<char>> {
    let (out, replacing, found) = state;
    if indented(line) && replacing {
        Ok((out, replacing, found))
    } else {
        match first_index(line, ':') {
            Some(c) if to_lower(line.take(c)) == to_lower("Types"@) => if found {
                Err(DUPLICATE_TYPES_ERROR@)
            } else {
                Ok((out.push(line.take(c) + ": "@ + repl), true, true))
            },
            _ => Ok((out.push(line), false, found)),
        }
    }
}

/// The paragraph with its `Types` field (and that field's continuation
/// lines) replaced by `Types: repl`.
pub open spec fn replaced_types(paragraph: Seq<char>, repl: Seq<char>) -> Result<Seq<char>, Seq<char>> {
    match types_fold(lines(paragraph), lines(paragraph).len() as int, repl) {
        Err(e) => Err(e),
        Ok((out, _, found)) => if found {
            Ok(join(out, "\n"@))
        } else {
            Err(MISSING_TYPES_ERROR@)
        },
    }
}

proof fn lemma_types_fold_err(ls: Seq<Seq<char>>, k: int, n: int, repl: Seq<char>)
    requires
        0 <= k <= n,
        types_fold(ls, k, repl) is Err,
    ensures
        types_fold(ls, n, repl) == types_fold(ls, k, repl),
    decreases n - k,
{
    if n > k {
        lemma_types_fold_err(ls, k, n - 1, repl);
    }
}

fn types_step_exec(out: Vec<String>, replacing: bool, found: bool, line: &[char], repl: &str) -> (r: Result<(Vec<String>, bool, bool), String>)
    ensures
        match r {
            Ok((o, rp, f)) => types_step((string_views(out@), replacing, found), line@, repl@)
                == Ok::<(Seq<Seq<char>>, bool, bool), Seq<char>>((string_views(o@), rp, f)),
            Err(e) => types_step((string_views(out@), replacing, found), line@, repl@)
                == Err::<(Seq<Seq<char>>, bool, bool), Seq<char>>(e@),
        },
{
    let mut out = out;
    let ghost prev = string_views(out@);
    if line.len() > 0 && (line[0] == ' ' || line[0] == '\t') && replacing {
        return Ok((out, replacing, found));
    }
    if let Some(c) = first_index_of(line, ':') {
        let name = slice_to_vec(line, 0, c);
        assert(name@ =~= line@.take(c as int));
        if eq_ignore_case(&name, "Types") {
            if found {
                return Err(DUPLICATE_TYPES_ERROR.to_owned());
            }
            let mut text = string_of(&name);
            text.append(": ");
            text.append(repl);
            out.push(text);
            assert(string_views(out@) =~= prev.push(line@.take(c as int) + ": "@ + repl@));
            return Ok((out, true, true));
        }
    }
    out.push(string_of(line));
    assert(string_views(out@) =~= prev.push(line@));
    Ok((out, false, found))
}

fn replace_deb822_types(paragraph: &[char], repl: &str) -> (r: Result<String, String>)
    ensures
        match r {
            Ok(t) => replaced_types(paragraph@, repl@) == Ok::<Seq<char>, Seq<char>>(t@),
            Err(e) => replaced_types(paragraph@, repl@) == Err::<Seq<char>, Seq<char>>(e@),
        },
{
    let ls = lines_of(paragraph);
    let ghost lv = lines(paragraph@);
    let mut out: Vec<String> = Vec::new();
    let mut replacing = false;
    let mut found = false;
    let mut i: usize = 0;
    assert(string_views(out@) =~= Seq::<Seq<char>>::empty());
    while i < ls.len()
        invariant
            i <= ls@.len(),
            views(ls@) == lv,
            lv == lines(paragraph@),
            types_fold(lv, i as int, repl@) == Ok::<(Seq<Seq<char>>, bool, bool), Seq<char>>(
                (string_views(out@), replacing, found),
            ),
        decreases ls@.len() - i,
    {
        assert(lv[i as int] == ls@[i as int]@);
        match types_step_exec(out, replacing, found, &ls[i], repl) {
            Ok((o, rp, f)) => {
                out = o;
                replacing = rp;
                found = f;
            },
            Err(e) => {
                proof {
                    lemma_types_fold_err(lv, i + 1, lv.len() as int, repl@);
                }
                return Err(e);
            },
        }
        i += 1;
    }
    if !found {
        return Err(MISSING_TYPES_ERROR.to_owned());
    }
    Ok(join_strings(&out, "\n"))
}

/// The values of a whitespace-separated list field, each URI normalized;
/// the first URI that cannot be normalized decides the error.
pub open spec fn normalized_all(ws: Seq<Seq<char>>) -> Result<Seq<Seq<char>>, Seq<char>>
    decreases ws.len(),
{
    if ws.len() == 0 {
        Ok(Seq::empty())
    } else {
        match normalized_all(ws.drop_last()) {
            Err(e) => Err(e),
            Ok(us) => match normalized_uri(ws.last()) {
                Err(e) => Err(e),
                Ok(u) => Ok(us.push(u)),
            },
        }
    }
}

proof fn lemma_normalized_all_err(ws: Seq<Seq<char>>, k: int)
    requires
        0 <= k <= ws.len(),
        normalized_all(ws.take(k)) is Err,
    ensures
        normalized_all(ws) == normalized_all(ws.take(k)),
    decreases ws.len(),
{
    if ws.len() == k {
        assert(ws.take(k) =~= ws);
    } else {
        assert(ws.drop_last().take(k) =~= ws.take(k));
        lemma_normalized_all_err(ws.drop_last(), k);
    }
}

fn normalize_all(ws: &Vec<Vec<char>>) -> (r: Result<Vec<Vec<char>>, String>)
    ensures
        match r {
            Ok(us) => normalized_all(views(ws@)) == Ok::<Seq<Seq<char>>, Seq<char>>(views(us@)),
            Err(e) => normalized_all(views(ws@)) == Err::<Seq<Seq<char>>, Seq<char>>(e@),
        },
{
    let mut us: Vec<Vec<char>> = Vec::new();
    let mut i: usize = 0;
    assert(views(ws@).take(0) =~= Seq::<Seq<char>>::empty());
    assert(views(us@) =~= Seq::<Seq<char>>::empty());
    while i < ws.len()
        invariant
            i <= ws@.len(),
            normalized_all(views(ws@).take(i as int)) == Ok::<Seq<Seq<char>>, Seq<char>>(views(us@)),
        decreases ws@.len() - i,
    {
        let ghost prefix = views(ws@).take(i + 1);
        assert(prefix.drop_last() =~= views(ws@).take(i as int));
        assert(prefix.last() == ws@[i as int]@);
        match normalize_uri(&ws[i]) {
            Err(e) => {
                proof {
                    lemma_normalized_all_err(views(ws@), i + 1);
                }
                return Err(e);
            },
            Ok(u) => {
                let ghost before = views(us@);
                us.push(u);
                assert(views(us@) =~= before.push(u@));
            },
        }
        i += 1;
    }
    assert(views(ws@).take(i as int) =~= views(ws@));
    Ok(us)
}

/// How many of `uris` are official archive URIs of `distro`.
pub open spec fn official_count(distro: Seq<char>, uris: Seq<Seq<char>>) -> nat
    decreases uris.len(),
{
    if uris.len() == 0 {
        0
    } else {
        official_count(distro, uris.drop_last()) + if official_uri(distro, uris.last()) {
            1nat
        } else {
            0nat
        }
    }
}

fn count_official(distro: &[char], uris: &Vec<Vec<char>>) -> (r: usize)
    ensures
        r == official_count(distro@, views(uris@)),
{
    let mut n: usize = 0;
    let mut i: usize = 0;
    assert(views(uris@).take(0) =~= Seq::<Seq<char>>::empty());
    while i < uris.len()
        invariant
            i <= uris@.len(),
            n <= i,
            n == official_count(distro@, views(uris@).take(i as int)),
        decreases uris@.len() - i,
    {
        let ghost prefix = views(uris@).take(i + 1);
        assert(prefix.drop_last() =~= views(uris@).take(i as int));
        assert(prefix.last() == uris@[i as int]@);
        if is_official_uri(distro, &uris[i]) {
            n += 1;
        }
        i += 1;
    }
    assert(views(uris@).take(i as int) =~= views(uris@));
    n
}

/// Whether the paragraph is enabled, by its `Enabled` field.
pub open spec fn enabled_state(fs: Seq<(Seq<char>, Seq<char>)>) -> Result<bool, Seq<char>> {
    match field_lookup(fs, "enabled"@) {
        None => Ok(true),
        Some(v) => if to_lower(v) == to_lower("yes"@) {
            Ok(true)
        } else if to_lower(v) == to_lower("no"@) {
            Ok(false)
        } else {
            Err(ENABLED_ERROR@)
        },
    }
}

/// The words of the field `key`, or none where the field is absent.
pub open spec fn field_words(fs: Seq<(Seq<char>, Seq<char>)>, key: Seq<char>) -> Seq<Seq<char>> {
    match field_lookup(fs, key) {
        None => Seq::empty(),
        Some(v) => words(v),
    }
}

/// What becomes of one paragraph of a deb822 source file: kept as it is
/// (`Some` of itself), rewritten to its source types (`Some` of the new
/// text), dropped (`None`), or the migration refused.
pub open spec fn paragraph_out(p: ManagedAptSourcesView, para: Seq<char>) -> Result<Option<Seq<char>>, Seq<char>> {
    if trim(para).len() == 0 {
        Ok(Some(para))
    } else {
        match deb822_fields(para) {
            Err(e) => Err(e),
            Ok(fs) => match enabled_state(fs) {
                Err(e) => Err(e),
                Ok(enabled) => {
                    let types = field_words(fs, "types"@);
                    if !enabled || !types.contains("deb"@) {
                        Ok(Some(para))
                    } else {
                        match field_lookup(fs, "uris"@) {
                            None => Err(MISSING_URIS_ERROR@),
                            Some(u) => match normalized_all(words(u)) {
                                Err(e) => Err(e),
                                Ok(uris) => match field_lookup(fs, "suites"@) {
                                    None => Err(MISSING_SUITES_ERROR@),
                                    Some(sv) => paragraph_decision(p, para, fs, types, uris, words(sv)),
                                },
                            },
                        }
                    }
                },
            },
        }
    }
}

/// The decision on an enabled binary paragraph with the given URIs and suites.
pub open spec fn paragraph_decision(
    p: ManagedAptSourcesView,
    para: Seq<char>,
    fs: Seq<(Seq<char>, Seq<char>)>,
    types: Seq<Seq<char>>,
    uris: Seq<Seq<char>>,
    suites: Seq<Seq<char>>,
) -> Result<Option<Seq<char>>, Seq<char>> {
    let applies = match field_lookup(fs, "architectures"@) {
        None => true,
        Some(a) => words(a).contains(debian_name(p.architecture)),
    };
    let official = official_count(p.distro, uris);
    if applies && official != 0 {
        if field_lookup(fs, "architectures-add"@) is Some || field_lookup(fs, "architectures-remove"@) is Some {
            Err(DEB822_MODIFIER_ERROR@)
        } else if official != uris.len() {
            Err(MIXED_ERROR@)
        } else if !suites_expected(p, suites) {
            Err(RELEASE_ERROR@)
        } else if types.contains("deb-src"@) {
            match replaced_types(para, "deb-src"@) {
                Err(e) => Err(e),
                Ok(t) => Ok(Some(t)),
            }
        } else {
            Ok(None)
        }
    } else {
        Ok(Some(para))
    }
}

fn field_words_exec(fs: &Vec<(Vec<char>, Vec<char>)>, key: &str) -> (r: Vec<Vec<char>>)
    ensures
        views(r@) == field_words(field_views(fs@), key@),
{
    let k = chars_of(key);
    match lookup_field(fs, &k) {
        None => {
            let r: Vec<Vec<char>> = Vec::new();
            assert(views(r@) =~= Seq::<Seq<char>>::empty());
            r
        },
        Some(v) => words_of(&v),
    }
}

fn paragraph_decision_exec(
    policy: &ManagedAptSources,
    para: &[char],
    fs: &Vec<(Vec<char>, Vec<char>)>,
    types: &Vec<Vec<char>>,
    uris: &Vec<Vec<char>>,
    suites: &Vec<Vec<char>>,
) -> (r: Result<Option<String>, String>)
    ensures
        match r {
            Ok(Some(t)) => paragraph_decision(policy@, para@, field_views(fs@), views(types@), views(uris@), views(suites@))
                == Ok::<Option<Seq<char>>, Seq<char>>(Some(t@)),
            Ok(None) => paragraph_decision(policy@, para@, field_views(fs@), views(types@), views(uris@), views(suites@))
                == Ok::<Option<Seq<char>>, Seq<char>>(None),
            Err(e) => paragraph_decision(policy@, para@, field_views(fs@), views(types@), views(uris@), views(suites@))
                == Err::<Option<Seq<char>>, Seq<char>>(e@),
        },
{
    let applies = match lookup_field(fs, &chars_of("architectures")) {
        None => true,
        Some(a) => {
            let aw = words_of(&a);
            let name = chars_of(policy.architecture.debian());
            contains_word(&aw, &name)
        },
    };
    let distro = chars_of(policy.distro.as_str());
    let official = count_official(&distro, uris);
    if applies && official != 0 {
        if lookup_field(fs, &chars_of("architectures-add")).is_some() || lookup_field(
            fs,
            &chars_of("architectures-remove"),
        ).is_some() {
            return Err(DEB822_MODIFIER_ERROR.to_owned());
        }
        if official != uris.len() {
            return Err(MIXED_ERROR.to_owned());
        }
        validate_official_suites(policy, suites)?;
        if contains_word(types, &chars_of("deb-src")) {
            let t = replace_deb822_types(para, "deb-src")?;
            return Ok(Some(t));
        }
        return Ok(None);
    }
    Ok(Some(string_of(para)))
}

fn paragraph_out_exec(policy: &ManagedAptSources, para: &[char]) -> (r: Result<Option<String>, String>)
    ensures
        match r {
            Ok(Some(t)) => paragraph_out(policy@, para@) == Ok::<Option<Seq<char>>, Seq<char>>(Some(t@)),
            Ok(None) => paragraph_out(policy@, para@) == Ok::<Option<Seq<char>>, Seq<char>>(None),
            Err(e) => paragraph_out(policy@, para@) == Err::<Option<Seq<char>>, Seq<char>>(e@),
        },
{
    let t = trim_chars(para);
    if t.len() == 0 {
        return Ok(Some(string_of(para)));
    }
    let fs = parse_deb822_fields(para)?;
    let enabled = match lookup_field(&fs, &chars_of("enabled")) {
        None => true,
        Some(v) => if eq_ignore_case(&v, "yes") {
            true
        } else if eq_ignore_case(&v, "no") {
            false
        } else {
            return Err(ENABLED_ERROR.to_owned());
        },
    };
    let types = field_words_exec(&fs, "types");
    if !enabled || !contains_word(&types, &chars_of("deb")) {
        return Ok(Some(string_of(para)));
    }
    let u = match lookup_field(&fs, &chars_of("uris")) {
        None => {
            return Err(MISSING_URIS_ERROR.to_owned());
        },
        Some(u) => u,
    };
    let uris = normalize_all(&words_of(&u))?;
    let sv = match lookup_field(&fs, &chars_of("suites")) {
        None => {
            return Err(MISSING_SUITES_ERROR.to_owned());
        },
        Some(sv) => sv,
    };
    let suites = words_of(&sv);
    paragraph_decision_exec(policy, para, &fs, &types, &uris, &suites)
}

/// The kept and rewritten paragraphs of the first `n` of `paras`; the
/// first refused paragraph decides the error.
pub open spec fn deb822_fold(p: ManagedAptSourcesView, paras: Seq<Seq<char>>, n: int) -> Result<Seq<Seq<char>>, Seq<char>>
    decreases n,
{
    if n <= 0 {
        Ok(Seq::empty())
    } else {
        match deb822_fold(p, paras, n - 1) {
            Err(e) => Err(e),
            Ok(out) => match paragraph_out(p, paras[n - 1]) {
                Err(e) => Err(e),
                Ok(None) => Ok(out),
                Ok(Some(t)) => Ok(out.push(t)),
            },
        }
    }
}

/// The text of a deb822 source file after migration: its paragraphs (the
/// text split at blank-line separators `\n\n`) each kept, rewritten or
/// dropped, joined again by `\n\n`, with the final newline kept.
pub open spec fn reconciled_deb822(p: ManagedAptSourcesView, text: Seq<char>) -> Result<Seq<char>, Seq<char>> {
    let paras = split_str(text, "\n\n"@);
    match deb822_fold(p, paras, paras.len() as int) {
        Err(e) => Err(e),
        Ok(out) => {
            let r = join(out, "\n\n"@);
            Ok(
                if text.len() > 0 && text.last() == '\n' && !(r.len() > 0 && r.last() == '\n') {
                    r.push('\n')
                } else {
                    r
                },
            )
        },
    }
}

proof fn lemma_deb822_fold_err(p: ManagedAptSourcesView, paras: Seq<Seq<char>>, k: int, n: int)
    requires
        0 <= k <= n,
        deb822_fold(p, paras, k) is Err,
    ensures
        deb822_fold(p, paras, n) == deb822_fold(p, paras, k),
    decreases n - k,
{
    if n > k {
        lemma_deb822_fold_err(p, paras, k, n - 1);
    }
}

/// Removes the active official binary stanzas for the policy's
/// architecture from a deb822 source file; a stanza that also publishes
/// source packages keeps them under `Types: deb-src`, and every other
/// paragraph is kept as it was.
pub fn reconcile_deb822(policy: &ManagedAptSources, text: &str) -> (r: Result<String, String>)
    ensures
        match r {
            Ok(out) => reconciled_deb822(policy@, text@) == Ok::<Seq<char>, Seq<char>>(out@),
            Err(e) => reconciled_deb822(policy@, text@) == Err::<Seq<char>, Seq<char>>(e@),
        },
{
    proof {
        reveal_strlit("\n\n");
    }
    let t = chars_of(text);
    let paras = split_str_chars(&t, "\n\n");
    let ghost pv = split_str(text@, "\n\n"@);
    let mut out: Vec<String> = Vec::new();
    let mut i: usize = 0;
    assert(string_views(out@) =~= Seq::<Seq<char>>::empty());
    while i < paras.len()
        invariant
            i <= paras@.len(),
            views(paras@) == pv,
            pv == split_str(text@, "\n\n"@),
            deb822_fold(policy@, pv, i as int) == Ok::<Seq<Seq<char>>, Seq<char>>(string_views(out@)),
        decreases paras@.len() - i,
    {
        assert(pv[i as int] == paras@[i as int]@);
        let ghost prev = string_views(out@);
        match paragraph_out_exec(policy, &paras[i]) {
            Err(e) => {
                proof {
                    lemma_deb822_fold_err(policy@, pv, i + 1, pv.len() as int);
                }
                return Err(e);
            },
            Ok(None) => {},
            Ok(Some(t)) => {
                out.push(t);
                assert(string_views(out@) =~= prev.push(t@));
            },
        }
        i += 1;
    }
    let mut result = join_strings(&out, "\n\n");
    let rc = chars_of(result.as_str());
    if t.len() > 0 && t[t.len() - 1] == '\n' && !(rc.len() > 0 && rc[rc.len() - 1] == '\n') {
        push_char(&mut result, '\n');
    }
    Ok(result)
}

// ---------------------------------------------------------------- files

pub open spec fn change_view(path: Seq<char>, existed: bool, original: Seq<char>, replacement: Seq<char>) -> SourceChangeView {
    SourceChangeView { path, existed, original, replacement }
}

/// The migrated text of a source file other than the owned one, by its extension.
pub open spec fn reconciled_text(p: ManagedAptSourcesView, f: SourceFileView) -> Result<Seq<char>, Seq<char>> {
    match path_extension(f.path) {
        None => reconciled_list(p, f.text),
        Some(e) => if e == "list"@ {
            reconciled_list(p, f.text)
        } else if e == "sources"@ {
            reconciled_deb822(p, f.text)
        } else {
            Err(EXTENSION_ERROR@)
        },
    }
}

/// The change that one source file needs, if any.
pub open spec fn file_change(p: ManagedAptSourcesView, f: SourceFileView) -> Result<Option<SourceChangeView>, Seq<char>> {
    let expected = deb822_text(p.stanzas);
    if paths_equal(f.path, OWNED_SOURCE@) {
        if f.text != expected {
            Ok(Some(change_view(f.path, true, f.text, expected)))
        } else {
            Ok(None)
        }
    } else {
        match reconciled_text(p, f) {
            Err(e) => Err(e),
            Ok(r) => if r != f.text {
                Ok(Some(change_view(f.path, true, f.text, r)))
            } else {
                Ok(None)
            },
        }
    }
}

pub open spec fn changes_fold(p: ManagedAptSourcesView, files: Seq<SourceFileView>, n: int) -> Result<Seq<SourceChangeView>, Seq<char>>
    decreases n,
{
    if n <= 0 {
        Ok(Seq::empty())
    } else {
        match changes_fold(p, files, n - 1) {
            Err(e) => Err(e),
            Ok(cs) => match file_change(p, files[n - 1]) {
                Err(e) => Err(e),
                Ok(None) => Ok(cs),
                Ok(Some(c)) => Ok(cs.push(c)),
            },
        }
    }
}

pub open spec fn saw_owned(files: Seq<SourceFileView>) -> bool {
    exists|i: int| 0 <= i < files.len() && paths_equal(#[trigger] files[i].path, OWNED_SOURCE@)
}

/// The changes that converge the files on the policy, in file order, with
/// the creation of the owned source last where it does not exist yet.
pub open spec fn reconciled(p: ManagedAptSourcesView, files: Seq<SourceFileView>) -> Result<Seq<SourceChangeView>, Seq<char>> {
    match changes_fold(p, files, files.len() as int) {
        Err(e) => Err(e),
        Ok(cs) => Ok(
            if saw_owned(files) {
                cs
            } else {
                cs.push(change_view(OWNED_SOURCE@, false, Seq::empty(), deb822_text(p.stanzas)))
            },
        ),
    }
}

pub open spec fn file_views(v: Seq<SourceFile>) -> Seq<SourceFileView> {
    v.map_values(|f: SourceFile| f@)
}

pub open spec fn change_views(v: Seq<SourceChange>) -> Seq<SourceChangeView> {
    v.map_values(|c: SourceChange| c@)
}

proof fn lemma_changes_fold_err(p: ManagedAptSourcesView, files: Seq<SourceFileView>, k: int, n: int)
    requires
        0 <= k <= n,
        changes_fold(p, files, k) is Err,
    ensures
        changes_fold(p, files, n) == changes_fold(p, files, k),
    decreases n - k,
{
    if n > k {
        lemma_changes_fold_err(p, files, k, n - 1);
    }
}

fn file_change_exec(policy: &ManagedAptSources, expected: &String, file: &SourceFile) -> (r: Result<Option<SourceChange>, String>)
    requires
        expected@ == deb822_text(policy@.stanzas),
    ensures
        match r {
            Ok(Some(c)) => file_change(policy@, file@) == Ok::<Option<SourceChangeView>, Seq<char>>(Some(c@)),
            Ok(None) => file_change(policy@, file@) == Ok::<Option<SourceChangeView>, Seq<char>>(None),
            Err(e) => file_change(policy@, file@) == Err::<Option<SourceChangeView>, Seq<char>>(e@),
        },
{
    let text = chars_of(file.text.as_str());
    if same_path(file.path.as_str(), OWNED_SOURCE) {
        let ex = chars_of(expected.as_str());
        if !eq_chars(&text, &ex) {
            return Ok(Some(SourceChange {
                path: file.path.clone(),
                existed: true,
                original: file.text.clone(),
                replacement: expected.clone(),
            }));
        }
        return Ok(None);
    }
    let replacement = match extension_of(file.path.as_str()) {
        None => reconcile_list(policy, file.text.as_str())?,
        Some(e) => {
            let ev = chars_of(e.as_str());
            if eq_str(&ev, "list") {
                reconcile_list(policy, file.text.as_str())?
            } else if eq_str(&ev, "sources") {
                reconcile_deb822(policy, file.text.as_str())?
            } else {
                return Err(EXTENSION_ERROR.to_owned());
            }
        },
    };
    let rv = chars_of(replacement.as_str());
    if !eq_chars(&rv, &text) {
        return Ok(Some(SourceChange {
            path: file.path.clone(),
            existed: true,
            original: file.text.clone(),
            replacement,
        }));
    }
    Ok(None)
}

/// The changes that converge the source files on the policy: each file
/// whose migrated text differs from its text, in order, and the owned
/// source, created last where no file is it.
#[verifier::rlimit(40)]
pub fn reconcile(policy: &ManagedAptSources, files: &Vec<SourceFile>) -> (r: Result<Vec<SourceChange>, String>)
    ensures
        match r {
            Ok(cs) => reconciled(policy@, file_views(files@)) == Ok::<Seq<SourceChangeView>, Seq<char>>(change_views(cs@)),
            Err(e) => reconciled(policy@, file_views(files@)) == Err::<Seq<SourceChangeView>, Seq<char>>(e@),
        },
{
    let expected = policy.render_deb822();
    let ghost fv = file_views(files@);
    let mut changes: Vec<SourceChange> = Vec::new();
    let mut owned = false;
    let mut i: usize = 0;
    assert(change_views(changes@) =~= Seq::<SourceChangeView>::empty());
    while i < files.len()
        invariant
            i <= files@.len(),
            fv == file_views(files@),
            expected@ == deb822_text(policy@.stanzas),
            changes_fold(policy@, fv, i as int) == Ok::<Seq<SourceChangeView>, Seq<char>>(change_views(changes@)),
            owned <==> exists|k: int| 0 <= k < i && paths_equal(#[trigger] fv[k].path, OWNED_SOURCE@),
        decreases files@.len() - i,
    {
        let file = &files[i];
        assert(fv[i as int] == file@);
        if same_path(file.path.as_str(), OWNED_SOURCE) {
            owned = true;
        }
        let ghost prev = change_views(changes@);
        match file_change_exec(policy, &expected, file) {
            Err(e) => {
                proof {
                    lemma_changes_fold_err(policy@, fv, i + 1, fv.len() as int);
                }
                return Err(e);
            },
            Ok(None) => {},
            Ok(Some(c)) => {
                changes.push(c);
                assert(change_views(changes@) =~= prev.push(c@));
            },
        }
        i += 1;
    }
    if !owned {
        let ghost prev = change_views(changes@);
        proof {
            reveal_strlit("");
        }
        changes.push(SourceChange {
            path: OWNED_SOURCE.to_owned(),
            existed: false,
            original: String::new(),
            replacement: expected,
        });
        assert(change_views(changes@) =~= prev.push(
            change_view(OWNED_SOURCE@, false, Seq::empty(), deb822_text(policy@.stanzas)),
        ));
    }
    Ok(changes)
}

// ---------------------------------------------------------------- host state

pub const OUTSIDE_ERROR: &'static str = "managed APT discovery returned a path outside the source directories";

pub const FILENAME_ERROR: &'static str = "managed APT discovery returned an invalid source filename";

pub const NO_STANZAS_ERROR: &'static str = "managed APT policy has no source stanzas";

pub const KEYRINGS_ERROR: &'static str = "managed APT policy has inconsistent keyrings";

pub const KEYRING_OUTPUT_ERROR: &'static str = "managed APT keyring stat returned malformed output";

pub const KEYRING_MODE_ERROR: &'static str = "managed APT keyring stat returned malformed mode";

pub const KEYRING_SIZE_ERROR: &'static str = "managed APT keyring stat returned malformed size";

pub const KEYRING_FILE_ERROR: &'static str = "managed APT keyring must be a nonempty regular file";

pub const SOURCE_MODE_ERROR: &'static str = "managed APT source stat returned malformed mode";

pub const NOT_REGULAR_ERROR: &'static str = "managed APT source path is not a regular file";

pub open spec fn source_name_char(c: char) -> bool {
    is_alnum(c) || c == '.' || c == '_' || c == '-'
}

/// A source file name: ends in `.list` or `.sources` and holds only letters,
/// digits, `.`, `_` and `-`.
pub open spec fn source_file_name(name: Seq<char>) -> bool {
    (has_suffix(name, ".list"@) || has_suffix(name, ".sources"@)) && forall|k: int|
        0 <= k < name.len() ==> source_name_char(#[trigger] name[k])
}

/// Whether a discovered path may be inspected: the main source list, or a
/// well-named file directly in the source directory.
pub open spec fn source_path_check(value: Seq<char>) -> Result<(), Seq<char>> {
    if paths_equal(value, "/etc/apt/sources.list"@) {
        Ok(())
    } else if !(path_parent(value) matches Some(p) && paths_equal(p, "/etc/apt/sources.list.d"@)) {
        Err(OUTSIDE_ERROR@)
    } else {
        match path_file_name(value) {
            None => Err(FILENAME_ERROR@),
            Some(name) => if source_file_name(name) {
                Ok(())
            } else {
                Err(FILENAME_ERROR@)
            },
        }
    }
}

/// Accepts a path that the source discovery returned where it may be inspected.
pub fn validate_source_path(value: &str) -> (r: Result<String, String>)
    ensures
        match r {
            Ok(p) => source_path_check(value@) is Ok && p@ == value@,
            Err(e) => source_path_check(value@) == Err::<(), Seq<char>>(e@),
        },
{
    if same_path(value, "/etc/apt/sources.list") {
        return Ok(value.to_owned());
    }
    let inside = match parent_of(value) {
        None => false,
        Some(p) => same_path(p.as_str(), "/etc/apt/sources.list.d"),
    };
    if !inside {
        return Err(OUTSIDE_ERROR.to_owned());
    }
    let name = match file_name_of(value) {
        None => {
            return Err(FILENAME_ERROR.to_owned());
        },
        Some(n) => chars_of(n.as_str()),
    };
    let f = |c: char| -> (b: bool)
        ensures
            b == source_name_char(c),
        { alnum(c) || c == '.' || c == '_' || c == '-' };
    let ok = (ends_with(&name, &chars_of(".list")) || ends_with(&name, &chars_of(".sources"))) && all_chars(
        &name,
        f,
        Ghost(|c: char| source_name_char(c)),
    );
    if !ok {
        return Err(FILENAME_ERROR.to_owned());
    }
    Ok(value.to_owned())
}

/// The keyring that every stanza of the policy is signed by.
pub open spec fn policy_keyring_of(p: ManagedAptSourcesView) -> Result<Seq<char>, Seq<char>> {
    if p.stanzas.len() == 0 {
        Err(NO_STANZAS_ERROR@)
    } else if exists|i: int| 0 <= i < p.stanzas.len() && #[trigger] p.stanzas[i].signed_by != p.stanzas[0].signed_by {
        Err(KEYRINGS_ERROR@)
    } else {
        Ok(p.stanzas[0].signed_by)
    }
}

/// The keyring whose presence the publication checks first.
pub fn policy_keyring(policy: &ManagedAptSources) -> (r: Result<String, String>)
    ensures
        match r {
            Ok(k) => policy_keyring_of(policy@) == Ok::<Seq<char>, Seq<char>>(k@),
            Err(e) => policy_keyring_of(policy@) == Err::<Seq<char>, Seq<char>>(e@),
        },
{
    if policy.stanzas.len() == 0 {
        return Err(NO_STANZAS_ERROR.to_owned());
    }
    let first = chars_of(policy.stanzas[0].signed_by.as_str());
    let mut i: usize = 0;
    while i < policy.stanzas.len()
        invariant
            i <= policy.stanzas@.len(),
            policy.stanzas@.len() > 0,
            first@ == policy@.stanzas[0].signed_by,
            forall|k: int| 0 <= k < i ==> #[trigger] policy@.stanzas[k].signed_by == policy@.stanzas[0].signed_by,
        decreases policy.stanzas@.len() - i,
    {
        let k = chars_of(policy.stanzas[i].signed_by.as_str());
        if !eq_chars(&k, &first) {
            assert(policy@.stanzas[i as int].signed_by != policy@.stanzas[0].signed_by);
            return Err(KEYRINGS_ERROR.to_owned());
        }
        i += 1;
    }
    Ok(policy.stanzas[0].signed_by.clone())
}

/// A file mode (as `stat --format=%f` writes it) of a regular file.
pub open spec fn regular_mode(mode: nat) -> bool {
    (mode / 4096) % 16 == 8
}

/// The verdict on the keyring's `stat --format=%f:%s` output: the mode in
/// hexadecimal and the size in decimal, a nonempty regular file.
pub open spec fn keyring_verdict(state: Seq<char>) -> Result<(), Seq<char>> {
    let t = trim_end(state);
    match first_index(t, ':') {
        None => Err(KEYRING_OUTPUT_ERROR@),
        Some(c) => match parsed_unsigned(t.take(c), 16, u32::MAX as nat) {
            None => Err(KEYRING_MODE_ERROR@),
            Some(mode) => match parsed_unsigned(t.skip(c + 1), 10, u64::MAX as nat) {
                None => Err(KEYRING_SIZE_ERROR@),
                Some(size) => if !regular_mode(mode) || size == 0 {
                    Err(KEYRING_FILE_ERROR@)
                } else {
                    Ok(())
                },
            },
        },
    }
}

/// Checks the keyring's `stat` output.
pub fn keyring_state(state: &str) -> (r: Result<(), String>)
    ensures
        match r {
            Ok(_) => keyring_verdict(state@) is Ok,
            Err(e) => keyring_verdict(state@) == Err::<(), Seq<char>>(e@),
        },
{
    let t = trim_end_chars(&chars_of(state));
    let c = match first_index_of(&t, ':') {
        None => {
            return Err(KEYRING_OUTPUT_ERROR.to_owned());
        },
        Some(c) => c,
    };
    let n = t.len();
    assert(c < n);
    let after: usize = c + 1;
    let mode_text = slice_to_vec(&t, 0, c);
    let size_text = slice_to_vec(&t, after, n);
    assert(mode_text@ =~= t@.take(c as int));
    assert(size_text@ =~= t@.skip(c + 1));
    let mode = match parse_unsigned(&mode_text, 16, 0xffff_ffff) {
        None => {
            return Err(KEYRING_MODE_ERROR.to_owned());
        },
        Some(m) => m,
    };
    let size = match parse_unsigned(&size_text, 10, 0xffff_ffff_ffff_ffff) {
        None => {
            return Err(KEYRING_SIZE_ERROR.to_owned());
        },
        Some(z) => z,
    };
    if (mode / 4096) % 16 != 8 || size == 0 {
        return Err(KEYRING_FILE_ERROR.to_owned());
    }
    Ok(())
}

/// The verdict on a source file's `stat --format=%f` output.
pub open spec fn source_mode_verdict(path: Seq<char>, state: Seq<char>) -> Result<(), Seq<char>> {
    match parsed_unsigned(trim_end(state), 16, u32::MAX as nat) {
        None => Err(SOURCE_MODE_ERROR@),
        Some(mode) => if regular_mode(mode) {
            Ok(())
        } else {
            Err(NOT_REGULAR_ERROR@ + ": "@ + path)
        },
    }
}

/// Checks that a discovered source path is a regular file by its `stat` output.
pub fn source_mode(path: &str, state: &str) -> (r: Result<(), String>)
    ensures
        match r {
            Ok(_) => source_mode_verdict(path@, state@) is Ok,
            Err(e) => source_mode_verdict(path@, state@) == Err::<(), Seq<char>>(e@),
        },
{
    let t = trim_end_chars(&chars_of(state));
    match parse_unsigned(&t, 16, 0xffff_ffff) {
        None => Err(SOURCE_MODE_ERROR.to_owned()),
        Some(mode) => if (mode / 4096) % 16 == 8 {
            Ok(())
        } else {
            Err(message(NOT_REGULAR_ERROR, path))
        },
    }
}

/// The order of publication: every changed file but the owned source
/// first, in order, then the owned source.
pub open spec fn publication_order(cs: Seq<SourceChangeView>) -> Seq<SourceChangeView> {
    cs.filter(|c: SourceChangeView| !paths_equal(c.path, OWNED_SOURCE@)) + cs.filter(
        |c: SourceChangeView| paths_equal(c.path, OWNED_SOURCE@),
    ).take(1)
}

// ---------------------------------------------------------------- laws

/// The lines among the first `n` parts that the migration keeps.
pub open spec fn kept_lines(p: ManagedAptSourcesView, parts: Seq<Seq<char>>, n: int) -> Seq<Seq<char>>
    decreases n,
{
    if n <= 0 {
        Seq::empty()
    } else {
        let prev = kept_lines(p, parts, n - 1);
        if list_line(p, parts[n - 1]) == Ok::<bool, Seq<char>>(true) {
            prev.push(parts[n - 1])
        } else {
            prev
        }
    }
}

proof fn lemma_list_fold_kept(p: ManagedAptSourcesView, parts: Seq<Seq<char>>, n: int)
    requires
        0 <= n < parts.len(),
        list_fold(p, parts, n) is Ok,
        forall|i: int| 0 <= i < parts.len() ==> !(#[trigger] parts[i]).contains('\n'),
    ensures
        list_fold(p, parts, n) == Ok::<Seq<char>, Seq<char>>(join_lines(kept_lines(p, parts, n))),
        forall|i: int| 0 <= i < kept_lines(p, parts, n).len() ==> list_line(p, #[trigger] kept_lines(p, parts, n)[i])
            == Ok::<bool, Seq<char>>(true) && !kept_lines(p, parts, n)[i].contains('\n'),
    decreases n,
{
    if n > 0 {
        lemma_list_fold_kept(p, parts, n - 1);
        let prev = kept_lines(p, parts, n - 1);
        if list_line(p, parts[n - 1]) == Ok::<bool, Seq<char>>(true) {
            assert(kept_lines(p, parts, n).drop_last() =~= prev);
            assert forall|i: int| 0 <= i < kept_lines(p, parts, n).len() implies list_line(
                p,
                #[trigger] kept_lines(p, parts, n)[i],
            ) == Ok::<bool, Seq<char>>(true) && !kept_lines(p, parts, n)[i].contains('\n') by {
                if i < prev.len() {
                    assert(kept_lines(p, parts, n)[i] == prev[i]);
                }
            }
        }
    }
}

proof fn lemma_list_fold_all_kept(p: ManagedAptSourcesView, ks: Seq<Seq<char>>, g: Seq<char>, k: int)
    requires
        0 <= k <= ks.len(),
        forall|i: int| 0 <= i < ks.len() ==> list_line(p, #[trigger] ks[i]) == Ok::<bool, Seq<char>>(true),
    ensures
        list_fold(p, ks.push(g), k) == Ok::<Seq<char>, Seq<char>>(join_lines(ks.take(k))),
    decreases k,
{
    if k > 0 {
        lemma_list_fold_all_kept(p, ks, g, k - 1);
        assert(ks.push(g)[k - 1] == ks[k - 1]);
        assert(ks.take(k).drop_last() =~= ks.take(k - 1));
        assert(ks.take(k).last() == ks[k - 1]);
    } else {
        assert(ks.take(0) =~= Seq::<Seq<char>>::empty());
    }
}

/// Migrating a one-line source file twice changes nothing the second time:
/// the migrated text is its own migration.
pub proof fn lemma_list_migration_idempotent(p: ManagedAptSourcesView, text: Seq<char>)
    requires
        reconciled_list(p, text) is Ok,
    ensures
        reconciled_list(p, reconciled_list(p, text)->Ok_0) == reconciled_list(p, text),
{
    let parts = split(text, '\n');
    let n = parts.len() as int;
    crate::text::lemma_split_by_nonempty(text, crate::text::is_char('\n'));
    crate::text::lemma_split_parts_free(text, '\n');
    if list_fold(p, parts, n - 1) is Err {
        assert(list_fold(p, parts, n) is Err);
    }
    lemma_list_fold_kept(p, parts, n - 1);
    let ks = kept_lines(p, parts, n - 1);
    let last = parts[n - 1];
    let g = if last.len() == 0 {
        Seq::<char>::empty()
    } else if list_line(p, last) == Ok::<bool, Seq<char>>(true) {
        last
    } else {
        Seq::<char>::empty()
    };
    let out = join_lines(ks) + g;
    assert(reconciled_list(p, text) == Ok::<Seq<char>, Seq<char>>(out)) by {
        if last.len() == 0 {
            assert(join_lines(ks) + g =~= join_lines(ks));
        } else if list_line(p, last) == Ok::<bool, Seq<char>>(true) {
        } else {
            assert(join_lines(ks) + g =~= join_lines(ks));
        }
    }
    assert(!g.contains('\n')) by {
        if g.len() > 0 {
            assert(g == parts[n - 1]);
        }
    }
    crate::text::lemma_split_join_lines(ks, g);
    let again = ks.push(g);
    assert(split(out, '\n') == again);
    lemma_list_fold_all_kept(p, ks, g, ks.len() as int);
    assert(ks.take(ks.len() as int) =~= ks);
    assert(list_fold(p, again, again.len() as int) == Ok::<Seq<char>, Seq<char>>(out)) by {
        assert(again[again.len() - 1] == g);
        if g.len() == 0 {
            assert(join_lines(ks) + g =~= join_lines(ks));
        } else {
            assert(list_line(p, g) == Ok::<bool, Seq<char>>(true));
        }
    }
}

/// A one-line source file that holds the result of an earlier migration
/// needs no change.
pub proof fn lemma_migrated_list_file_unchanged(p: ManagedAptSourcesView, f: SourceFileView, earlier: Seq<char>)
    requires
        !paths_equal(f.path, OWNED_SOURCE@),
        path_extension(f.path) is None || path_extension(f.path) == Some("list"@),
        reconciled_list(p, earlier) == Ok::<Seq<char>, Seq<char>>(f.text),
    ensures
        file_change(p, f) == Ok::<Option<SourceChangeView>, Seq<char>>(None),
{
    lemma_list_migration_idempotent(p, earlier);
}

/// The owned source, once it holds the policy's rendering, needs no change.
pub proof fn lemma_owned_source_converged(p: ManagedAptSourcesView, f: SourceFileView)
    requires
        paths_equal(f.path, OWNED_SOURCE@),
        f.text == deb822_text(p.stanzas),
    ensures
        file_change(p, f) == Ok::<Option<SourceChangeView>, Seq<char>>(None),
{
}

/// Where no file is the owned source, the last change creates it with the
/// policy's rendering, so that it is published after every migration.
pub proof fn lemma_owned_source_created_last(p: ManagedAptSourcesView, files: Seq<SourceFileView>)
    requires
        reconciled(p, files) is Ok,
        !saw_owned(files),
    ensures
        reconciled(p, files)->Ok_0.len() > 0,
        reconciled(p, files)->Ok_0.last() == change_view(OWNED_SOURCE@, false, Seq::empty(), deb822_text(p.stanzas)),
{
}

} // verus!
