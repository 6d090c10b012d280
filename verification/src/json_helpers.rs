//! Small parsers for release metadata and tool output: asset wildcards, Go
//! release versions, and the GNOME Shell version.
use vstd::prelude::*;
use crate::json::{as_items, as_text, as_u64, index, member, Json};
use crate::text::{
    chars_of, digit, ends_with, find_seq, first_occurrence, has_prefix, has_suffix, is_digit,
    lemma_first_occurrence_at, slice_to_vec, split, split_chars, starts_with, string_of,
    unicode_words, unicode_words_of, views, concat, debug_str, debug_text, last_index,
    last_index_of, eq_chars, eq_str,
};

verus! {

/// The literal segments between the stars of a wildcard, matched in order
/// from `parts[k]` on, each at its leftmost occurrence in what is left of
/// the text; the first segment must start the text unless the pattern
/// starts with a star.
pub open spec fn wildcard_scan(parts: Seq<Seq<char>>, k: int, rem: Seq<char>, leading_star: bool) -> bool
    decreases parts.len() - k,
{
    if k < 0 || k >= parts.len() {
        true
    } else if parts[k].len() == 0 {
        wildcard_scan(parts, k + 1, rem, leading_star)
    } else {
        match first_occurrence(rem, parts[k]) {
            None => false,
            Some(at) => if k == 0 && !leading_star && at != 0 {
                false
            } else {
                wildcard_scan(parts, k + 1, rem.skip(at + parts[k].len()), leading_star)
            },
        }
    }
}

/// Whether a release asset name matches a `*` wildcard pattern, anchored
/// at both ends: a pattern without a star matches only itself; else the
/// segments are found in order, and the text ends with the last segment
/// unless the pattern ends with a star.
pub open spec fn wildcard_matches(pattern: Seq<char>, text: Seq<char>) -> bool {
    let parts = split(pattern, '*');
    if parts.len() == 1 {
        text == pattern
    } else {
        wildcard_scan(parts, 0, text, has_prefix(pattern, "*"@)) && (has_suffix(pattern, "*"@) || has_suffix(
            text,
            parts.last(),
        ))
    }
}

pub fn wildcard_match(pattern: &str, text: &str) -> (r: bool)
    ensures
        r == wildcard_matches(pattern@, text@),
{
    let p = chars_of(pattern);
    let t = chars_of(text);
    let star = chars_of("*");
    let parts = split_chars(&p, '*');
    let ghost pv = split(pattern@, '*');
    if parts.len() == 1 {
        return eq_chars(&t, &p);
    }
    let leading = starts_with(&p, &star);
    let mut rem = slice_to_vec(&t, 0, t.len());
    assert(rem@ =~= text@);
    let mut k: usize = 0;
    while k < parts.len()
        invariant
            k <= parts@.len(),
            views(parts@) == pv,
            pv == split(pattern@, '*'),
            pv.len() != 1,
            star@ == "*"@,
            leading == has_prefix(pattern@, "*"@),
            wildcard_scan(pv, 0, text@, leading) == wildcard_scan(pv, k as int, rem@, leading),
        decreases parts@.len() - k,
    {
        let part = &parts[k];
        assert(pv[k as int] == part@);
        if part.len() > 0 {
            match find_seq(&rem, part) {
                None => {
                    return false;
                },
                Some(at) => {
                    proof {
                        lemma_first_occurrence_at(rem@, part@, at as int);
                    }
                    if k == 0 && !leading && at != 0 {
                        return false;
                    }
                    let n = rem.len();
                    let next = slice_to_vec(&rem, at + part.len(), n);
                    assert(next@ =~= rem@.skip(at + part@.len()));
                    rem = next;
                },
            }
        }
        k += 1;
    }
    let ends = ends_with(&p, &star);
    let last = &parts[parts.len() - 1];
    assert(pv.last() == last@);
    ends || ends_with(&t, last)
}

/// A stable Go release name: `go` and two or three dot-separated numbers.
pub open spec fn stable_go(value: Seq<char>) -> bool {
    has_prefix(value, "go"@) && {
        let parts = split(value.skip(2), '.');
        (parts.len() == 2 || parts.len() == 3) && forall|i: int|
            0 <= i < parts.len() ==> #[trigger] all_digits(parts[i])
    }
}

/// A non-empty run of ASCII digits.
pub open spec fn all_digits(s: Seq<char>) -> bool {
    s.len() > 0 && forall|k: int| 0 <= k < s.len() ==> is_digit(#[trigger] s[k])
}

fn digits_only(s: &[char]) -> (r: bool)
    ensures
        r == all_digits(s@),
{
    if s.len() == 0 {
        return false;
    }
    let mut k: usize = 0;
    while k < s.len()
        invariant
            k <= s@.len(),
            forall|j: int| 0 <= j < k ==> is_digit(#[trigger] s@[j]),
        decreases s@.len() - k,
    {
        if !digit(s[k]) {
            return false;
        }
        k += 1;
    }
    true
}

pub fn stable_go_version(value: &str) -> (r: bool)
    ensures
        r == stable_go(value@),
{
    proof {
        reveal_strlit("go");
    }
    let v = chars_of(value);
    if !starts_with(&v, &chars_of("go")) {
        return false;
    }
    let rest = slice_to_vec(&v, 2, v.len());
    assert(rest@ =~= value@.skip(2));
    let parts = split_chars(&rest, '.');
    let ghost pv = split(value@.skip(2), '.');
    if !(parts.len() == 2 || parts.len() == 3) {
        return false;
    }
    let mut i: usize = 0;
    while i < parts.len()
        invariant
            i <= parts@.len(),
            views(parts@) == pv,
            pv == split(value@.skip(2), '.'),
            has_prefix(value@, "go"@),
            pv.len() == 2 || pv.len() == 3,
            forall|j: int| 0 <= j < i ==> #[trigger] all_digits(pv[j]),
        decreases parts@.len() - i,
    {
        assert(pv[i as int] == parts@[i as int]@);
        if !digits_only(&parts[i]) {
            assert(!all_digits(pv[i as int]));
            return false;
        }
        i += 1;
    }
    true
}

pub open spec fn version_char(c: char) -> bool {
    is_digit(c) || c == '.'
}

/// `s` without leading characters other than digits and dots.
pub open spec fn trim_start_version(s: Seq<char>) -> Seq<char>
    decreases s.len(),
{
    if s.len() > 0 && !version_char(s[0]) {
        trim_start_version(s.drop_first())
    } else {
        s
    }
}

/// `s` without trailing characters other than digits and dots.
pub open spec fn trim_end_version(s: Seq<char>) -> Seq<char>
    decreases s.len(),
{
    if s.len() > 0 && !version_char(s.last()) {
        trim_end_version(s.drop_last())
    } else {
        s
    }
}

/// A dotted numeric version: non-empty, every dot-separated component a
/// non-empty run of digits.
pub open spec fn numeric_version(p: Seq<char>) -> bool {
    p.len() > 0 && forall|i: int| 0 <= i < split(p, '.').len() ==> #[trigger] all_digits(split(p, '.')[i])
}

/// The first word of the output that, trimmed of characters other than
/// digits and dots, is a dotted numeric version.
pub open spec fn first_version(ws: Seq<Seq<char>>) -> Option<Seq<char>>
    decreases ws.len(),
{
    if ws.len() == 0 {
        None
    } else {
        let p = trim_end_version(trim_start_version(ws[0]));
        if numeric_version(p) {
            Some(p)
        } else {
            first_version(ws.drop_first())
        }
    }
}

pub const SHELL_VERSION_ERROR: &'static str = "GNOME Shell version output has no numeric version";

fn trim_version_chars(s: &[char]) -> (r: Vec<char>)
    ensures
        r@ == trim_end_version(trim_start_version(s@)),
{
    let mut i: usize = 0;
    assert(s@.skip(0) =~= s@);
    while i < s.len() && !(digit(s[i]) || s[i] == '.')
        invariant
            i <= s@.len(),
            trim_start_version(s@) == trim_start_version(s@.skip(i as int)),
        decreases s@.len() - i,
    {
        assert(s@.skip(i as int).drop_first() =~= s@.skip(i + 1));
        i += 1;
    }
    let a = slice_to_vec(s, i, s.len());
    assert(a@ =~= s@.skip(i as int));
    let mut j: usize = a.len();
    assert(a@.take(j as int) =~= a@);
    while j > 0 && !(digit(a[j - 1]) || a[j - 1] == '.')
        invariant
            j <= a@.len(),
            trim_end_version(a@) == trim_end_version(a@.take(j as int)),
        decreases j,
    {
        assert(a@.take(j as int).drop_last() =~= a@.take(j - 1));
        j -= 1;
    }
    let r = slice_to_vec(&a, 0, j);
    assert(r@ =~= a@.take(j as int));
    r
}

fn is_numeric_version(p: &[char]) -> (r: bool)
    ensures
        r == numeric_version(p@),
{
    if p.len() == 0 {
        return false;
    }
    let parts = split_chars(p, '.');
    let ghost pv = split(p@, '.');
    let mut i: usize = 0;
    while i < parts.len()
        invariant
            i <= parts@.len(),
            views(parts@) == pv,
            pv == split(p@, '.'),
            forall|j: int| 0 <= j < i ==> #[trigger] all_digits(pv[j]),
        decreases parts@.len() - i,
    {
        assert(pv[i as int] == parts@[i as int]@);
        if !digits_only(&parts[i]) {
            return false;
        }
        i += 1;
    }
    true
}

/// The GNOME Shell version in `gnome-shell --version` output.
pub fn gnome_shell_version(input: &str) -> (r: Result<String, String>)
    ensures
        match first_version(unicode_words(input@)) {
            Some(v) => r matches Ok(s) && s@ == v,
            None => r matches Err(e) && e@ == SHELL_VERSION_ERROR@,
        },
{
    let words = unicode_words_of(&chars_of(input));
    let ghost wv = unicode_words(input@);
    let mut i: usize = 0;
    assert(wv.skip(0) =~= wv);
    while i < words.len()
        invariant
            i <= words@.len(),
            views(words@) == wv,
            wv == unicode_words(input@),
            first_version(wv) == first_version(wv.skip(i as int)),
        decreases words@.len() - i,
    {
        assert(wv.skip(i as int).drop_first() =~= wv.skip(i + 1));
        assert(wv.skip(i as int)[0] == words@[i as int]@);
        let p = trim_version_chars(&words[i]);
        if is_numeric_version(&p) {
            assert(first_version(wv.skip(i as int)) == Some(p@));
            return Ok(string_of(&p));
        }
        i += 1;
    }
    Err(SHELL_VERSION_ERROR.to_owned())
}

// ---------------------------------------------------------------- release metadata

/// The (name, download URL) of each asset that has both as strings, in order.
pub open spec fn asset_pairs(assets: Seq<Json>) -> Seq<(Seq<char>, Seq<char>)>
    decreases assets.len(),
{
    if assets.len() == 0 {
        Seq::empty()
    } else {
        let prev = asset_pairs(assets.drop_last());
        match (as_text(index(assets.last(), "name"@)), as_text(index(assets.last(), "browser_download_url"@))) {
            (Some(n), Some(u)) => prev.push((n, u)),
            _ => prev,
        }
    }
}

/// The assets whose names match the pattern.
pub open spec fn matching_assets(pairs: Seq<(Seq<char>, Seq<char>)>, pattern: Seq<char>) -> Seq<(Seq<char>, Seq<char>)> {
    pairs.filter(|p: (Seq<char>, Seq<char>)| wildcard_matches(pattern, p.0))
}

/// The download URL of the one release asset whose name matches the pattern.
pub open spec fn github_asset_result(release: Json, pattern: Seq<char>) -> Result<Seq<char>, Seq<char>> {
    match as_items(index(release, "assets"@)) {
        None => Err("GitHub response has no assets"@),
        Some(assets) => {
            let m = matching_assets(asset_pairs(assets), pattern);
            if m.len() == 1 {
                Ok(m[0].1)
            } else if m.len() == 0 {
                Err("no GitHub release asset matches "@ + debug_text(pattern))
            } else {
                Err("multiple GitHub release assets match "@ + debug_text(pattern))
            }
        },
    }
}

fn field_text<'a>(v: &'a Json, key: &str) -> (r: Option<&'a str>)
    ensures
        match r {
            Some(s) => as_text(index(*v, key@)) == Some(s@),
            None => as_text(index(*v, key@)) is None,
        },
{
    match v.get(key) {
        None => None,
        Some(m) => m.as_str(),
    }
}

/// The download URL of the one asset of a GitHub release (its JSON) whose
/// name matches the wildcard pattern.
pub fn github_asset(release: &Json, pattern: &str) -> (r: Result<String, String>)
    ensures
        match r {
            Ok(u) => github_asset_result(*release, pattern@) == Ok::<Seq<char>, Seq<char>>(u@),
            Err(e) => github_asset_result(*release, pattern@) == Err::<Seq<char>, Seq<char>>(e@),
        },
{
    let assets = match release.get("assets") {
        None => None,
        Some(a) => a.as_array(),
    };
    let assets = match assets {
        None => {
            return Err("GitHub response has no assets".to_owned());
        },
        Some(a) => a,
    };
    let ghost av = assets@;
    let ghost pred = |p: (Seq<char>, Seq<char>)| wildcard_matches(pattern@, p.0);
    let mut urls: Vec<String> = Vec::new();
    let mut i: usize = 0;
    assert(av.take(0) =~= Seq::<Json>::empty());
    while i < assets.len()
        invariant
            i <= av.len(),
            av == assets@,
            pred == (|p: (Seq<char>, Seq<char>)| wildcard_matches(pattern@, p.0)),
            urls@.len() == matching_assets(asset_pairs(av.take(i as int)), pattern@).len(),
            forall|k: int| 0 <= k < urls@.len() ==> #[trigger] urls@[k]@ == matching_assets(asset_pairs(av.take(i as int)), pattern@)[k].1,
        decreases av.len() - i,
    {
        let asset = &assets[i];
        assert(av.take(i + 1).drop_last() =~= av.take(i as int));
        assert(av.take(i + 1).last() == *asset);
        let ghost prev = asset_pairs(av.take(i as int));
        match (field_text(asset, "name"), field_text(asset, "browser_download_url")) {
            (Some(name), Some(url)) => {
                proof {
                    prev.lemma_filter_push((name@, url@), pred);
                }
                if wildcard_match(pattern, name) {
                    urls.push(url.to_owned());
                }
            },
            _ => {},
        }
        i += 1;
    }
    assert(av.take(i as int) =~= av);
    if urls.len() == 1 {
        Ok(urls[0].clone())
    } else if urls.len() == 0 {
        Err(crate::text::concat("no GitHub release asset matches ", debug_str(pattern).as_str()))
    } else {
        Err(crate::text::concat("multiple GitHub release assets match ", debug_str(pattern).as_str()))
    }
}

/// The requested Go version matches a release version `t`: `latest`, the
/// exact version, or a prefix of it followed by a dot.
pub open spec fn go_requested(t: Seq<char>, requested: Seq<char>) -> bool {
    requested == "latest"@ || t == requested || (has_prefix(t, requested) && t.len() > requested.len()
        && t[requested.len() as int] == '.')
}

/// The version (without `go`) of a stable release that matches the request.
pub open spec fn go_candidate(release: Json, requested: Seq<char>) -> Option<Seq<char>> {
    match as_text(index(release, "version"@)) {
        Some(v) => if stable_go(v) && go_requested(v.skip(2), requested) {
            Some(v.skip(2))
        } else {
            None
        },
        None => None,
    }
}

pub open spec fn first_go(releases: Seq<Json>, requested: Seq<char>) -> Option<Seq<char>>
    decreases releases.len(),
{
    if releases.len() == 0 {
        None
    } else {
        match go_candidate(releases[0], requested) {
            Some(t) => Some(t),
            None => first_go(releases.drop_first(), requested),
        }
    }
}

/// The first element whose field `key` is the string `value`.
pub open spec fn first_with(items: Seq<Json>, key: Seq<char>, value: Seq<char>) -> Option<Json>
    decreases items.len(),
{
    if items.len() == 0 {
        None
    } else if as_text(index(items[0], key)) == Some(value) {
        Some(items[0])
    } else {
        first_with(items.drop_first(), key, value)
    }
}

/// The checksum of the release's archive named `filename`.
pub open spec fn go_checksum(releases: Seq<Json>, version: Seq<char>, filename: Seq<char>) -> Option<Seq<char>> {
    match first_with(releases, "version"@, version) {
        None => None,
        Some(r) => match as_items(index(r, "files"@)) {
            None => None,
            Some(files) => match first_with(files, "filename"@, filename) {
                None => None,
                Some(f) => as_text(index(f, "sha256"@)),
            },
        },
    }
}

pub open spec fn go_filename(version: Seq<char>, arch: Seq<char>) -> Seq<char> {
    "go"@ + version + ".linux-"@ + arch + ".tar.gz"@
}

/// The stable Go release for the request: its version, archive name and checksum.
pub open spec fn latest_go_result(metadata: Json, requested: Seq<char>, arch: Seq<char>) -> Result<(Seq<char>, Seq<char>, Seq<char>), Seq<char>> {
    match as_items(metadata) {
        None => Err("Go metadata must be an array"@),
        Some(releases) => match first_go(releases, requested) {
            None => Err("Go metadata has no matching stable release"@),
            Some(t) => match go_checksum(releases, "go"@ + t, go_filename(t, arch)) {
                None => Err("Go metadata has no matching archive checksum"@),
                Some(c) => Ok((t, go_filename(t, arch), c)),
            },
        },
    }
}

fn find_with<'a>(items: &'a Vec<Json>, key: &str, value: &[char]) -> (r: Option<&'a Json>)
    ensures
        match r {
            Some(j) => first_with(items@, key@, value@) == Some(*j),
            None => first_with(items@, key@, value@) is None,
        },
{
    let mut i: usize = 0;
    assert(items@.skip(0) =~= items@);
    while i < items.len()
        invariant
            i <= items@.len(),
            first_with(items@, key@, value@) == first_with(items@.skip(i as int), key@, value@),
        decreases items@.len() - i,
    {
        assert(items@.skip(i as int).drop_first() =~= items@.skip(i + 1));
        assert(items@.skip(i as int)[0] == items@[i as int]);
        match field_text(&items[i], key) {
            Some(t) => {
                if eq_chars(&chars_of(t), value) {
                    return Some(&items[i]);
                }
            },
            None => {},
        }
        i += 1;
    }
    None
}

fn go_candidate_of(release: &Json, requested: &[char]) -> (r: Option<Vec<char>>)
    ensures
        match r {
            Some(t) => go_candidate(*release, requested@) == Some(t@),
            None => go_candidate(*release, requested@) is None,
        },
{
    proof {
        reveal_strlit("go");
    }
    let v = match field_text(release, "version") {
        None => {
            return None;
        },
        Some(v) => v,
    };
    if !stable_go_version(v) {
        return None;
    }
    let vc = chars_of(v);
    let t = slice_to_vec(&vc, 2, vc.len());
    assert(t@ =~= v@.skip(2));
    let latest = eq_str(requested, "latest");
    let exact = eq_chars(&t, requested);
    let dotted = starts_with(&t, requested) && t.len() > requested.len() && t[requested.len()] == '.';
    if latest || exact || dotted {
        Some(t)
    } else {
        None
    }
}

/// The stable Go release (from `go.dev/dl` metadata) that the requested
/// version names: its version, archive file name and SHA-256 checksum.
pub fn latest_go(metadata: &Json, requested: &str, arch: &str) -> (r: Result<(String, String, String), String>)
    ensures
        match r {
            Ok((v, f, c)) => latest_go_result(*metadata, requested@, arch@) == Ok::<(Seq<char>, Seq<char>, Seq<char>), Seq<char>>((v@, f@, c@)),
            Err(e) => latest_go_result(*metadata, requested@, arch@) == Err::<(Seq<char>, Seq<char>, Seq<char>), Seq<char>>(e@),
        },
{
    let releases = match metadata.as_array() {
        None => {
            return Err("Go metadata must be an array".to_owned());
        },
        Some(r) => r,
    };
    let req = chars_of(requested);
    let mut i: usize = 0;
    assert(releases@.skip(0) =~= releases@);
    while i < releases.len()
        invariant
            i <= releases@.len(),
            req@ == requested@,
            as_items(*metadata) == Some(releases@),
            first_go(releases@, requested@) == first_go(releases@.skip(i as int), requested@),
        decreases releases@.len() - i,
    {
        assert(releases@.skip(i as int).drop_first() =~= releases@.skip(i + 1));
        assert(releases@.skip(i as int)[0] == releases@[i as int]);
        if let Some(t) = go_candidate_of(&releases[i], &req) {
            return go_release(releases, &t, arch);
        }
        i += 1;
    }
    Err("Go metadata has no matching stable release".to_owned())
}

fn go_release(releases: &Vec<Json>, t: &[char], arch: &str) -> (r: Result<(String, String, String), String>)
    ensures
        match r {
            Ok((v, f, c)) => v@ == t@ && f@ == go_filename(t@, arch@) && go_checksum(releases@, "go"@ + t@, go_filename(t@, arch@)) == Some(c@),
            Err(e) => go_checksum(releases@, "go"@ + t@, go_filename(t@, arch@)) is None && e@ == "Go metadata has no matching archive checksum"@,
        },
{
    let version = string_of(t);
    let mut filename = crate::text::concat3("go", version.as_str(), ".linux-");
    filename.append(arch);
    filename.append(".tar.gz");
    let tagged = chars_of(crate::text::concat("go", version.as_str()).as_str());
    let checksum = match find_with(releases, "version", &tagged) {
        None => None,
        Some(release) => match release.get("files") {
            None => None,
            Some(files) => match files.as_array() {
                None => None,
                Some(files) => match find_with(files, "filename", &chars_of(filename.as_str())) {
                    None => None,
                    Some(file) => field_text(file, "sha256"),
                },
            },
        },
    };
    match checksum {
        None => Err("Go metadata has no matching archive checksum".to_owned()),
        Some(c) => Ok((version, filename, c.to_owned())),
    }
}

/// The extension version for the shell: the entry of the shell version, or
/// of its parents with the last dotted component removed, that has one.
pub open spec fn gnome_lookup(map: Json, candidate: Seq<char>, shell: Seq<char>) -> Result<u64, Seq<char>>
    decreases candidate.len(),
{
    match (match member(map, candidate) {
        Some(entry) => as_u64(index(entry, "version"@)),
        None => None,
    }) {
        Some(v) => Ok(v),
        None => match last_index(candidate, '.') {
            None => Err("GNOME response has no extension version for shell "@ + shell),
            Some(k) => if 0 <= k < candidate.len() {
                gnome_lookup(map, candidate.take(k), shell)
            } else {
                Err("GNOME response has no extension version for shell "@ + shell)
            },
        },
    }
}

pub open spec fn gnome_version_result(metadata: Json, shell: Seq<char>) -> Result<u64, Seq<char>> {
    match index(metadata, "shell_version_map"@) {
        Json::Object(ms) => gnome_lookup(Json::Object(ms), shell, shell),
        _ => Err("GNOME response has no shell_version_map"@),
    }
}

/// The extension version (from extensions.gnome.org metadata) for the
/// running shell version, falling back to its parent versions.
pub fn gnome_version(metadata: &Json, shell_version: &str) -> (r: Result<u64, String>)
    ensures
        match r {
            Ok(v) => gnome_version_result(*metadata, shell_version@) == Ok::<u64, Seq<char>>(v),
            Err(e) => gnome_version_result(*metadata, shell_version@) == Err::<u64, Seq<char>>(e@),
        },
{
    let map = match metadata.get("shell_version_map") {
        Some(m) => m,
        None => {
            return Err("GNOME response has no shell_version_map".to_owned());
        },
    };
    match map {
        Json::Object(_) => {},
        _ => {
            return Err("GNOME response has no shell_version_map".to_owned());
        },
    }
    let mut candidate = chars_of(shell_version);
    loop
        invariant
            map is Object,
            gnome_version_result(*metadata, shell_version@) == gnome_lookup(*map, candidate@, shell_version@),
        decreases candidate@.len(),
    {
        let text = string_of(&candidate);
        let found = match map.get(text.as_str()) {
            Some(entry) => match entry.get("version") {
                Some(v) => v.as_number(),
                None => None,
            },
            None => None,
        };
        if let Some(v) = found {
            return Ok(v);
        }
        match last_index_of(&candidate, '.') {
            None => {
                return Err(crate::text::concat("GNOME response has no extension version for shell ", shell_version));
            },
            Some(k) => {
                let parent = slice_to_vec(&candidate, 0, k);
                assert(parent@ =~= candidate@.take(k as int));
                candidate = parent;
            },
        }
    }
}

/// A text that splits into a single part is that part.
proof fn lemma_split_single(s: Seq<char>, sep: char)
    requires
        split(s, sep).len() == 1,
    ensures
        split(s, sep)[0] == s,
    decreases s.len(),
{
    if s.len() > 0 {
        crate::text::lemma_split_by_nonempty(s.drop_last(), crate::text::is_char(sep));
        lemma_split_single(s.drop_last(), sep);
        assert(s.drop_last().push(s.last()) =~= s);
    }
}

/// A pattern without a star matches exactly itself.
pub proof fn lemma_wildcard_without_star(pattern: Seq<char>, text: Seq<char>)
    requires
        !pattern.contains('*'),
    ensures
        wildcard_matches(pattern, text) <==> text == pattern,
{
    crate::text::lemma_split_free(pattern, '*');
}

/// A match is anchored at the start: where the pattern does not start
/// with a star, the text starts with the pattern's first literal segment.
pub proof fn lemma_wildcard_anchored_start(pattern: Seq<char>, text: Seq<char>)
    requires
        wildcard_matches(pattern, text),
        !has_prefix(pattern, "*"@),
    ensures
        has_prefix(text, split(pattern, '*')[0]),
{
    let parts = split(pattern, '*');
    crate::text::lemma_split_by_nonempty(pattern, crate::text::is_char('*'));
    if parts.len() == 1 {
        lemma_split_single(pattern, '*');
        assert(text == pattern);
        assert(text.subrange(0, text.len() as int) =~= text);
        assert(has_prefix(text, parts[0]));
    } else if parts[0].len() == 0 {
        assert(text.subrange(0, 0) =~= parts[0]);
        assert(has_prefix(text, parts[0]));
    } else {
        assert(wildcard_scan(parts, 0, text, false));
        crate::text::lemma_first_occurrence_some(text, parts[0]);
        let at = first_occurrence(text, parts[0])->Some_0;
        assert(crate::text::occurs_at(text, parts[0], at));
        assert(at == 0);
        assert(has_prefix(text, parts[0]));
    }
}

/// A match is anchored at the end: where the pattern does not end with a
/// star, the text ends with the pattern's last literal segment.
pub proof fn lemma_wildcard_anchored_end(pattern: Seq<char>, text: Seq<char>)
    requires
        wildcard_matches(pattern, text),
        !has_suffix(pattern, "*"@),
    ensures
        has_suffix(text, split(pattern, '*').last()),
{
    let parts = split(pattern, '*');
    crate::text::lemma_split_by_nonempty(pattern, crate::text::is_char('*'));
    if parts.len() == 1 {
        lemma_split_single(pattern, '*');
        assert(text.subrange(0, text.len() as int) =~= text);
    }
}

proof fn lemma_go_prefix(t: Seq<char>)
    ensures
        ("go"@ + t).skip(2) == t,
        has_prefix("go"@ + t, "go"@),
{
    reveal_strlit("go");
    assert(("go"@ + t).skip(2) =~= t);
    assert(("go"@ + t).subrange(0, 2) =~= "go"@);
}

/// A release listed as `go<V>`, stable, is found when `V` itself is
/// requested.
proof fn lemma_first_go_finds(releases: Seq<Json>, requested: Seq<char>, i: int)
    requires
        0 <= i < releases.len(),
        as_text(index(releases[i], "version"@)) == Some("go"@ + requested),
        stable_go("go"@ + requested),
    ensures
        first_go(releases, requested) is Some,
    decreases i,
{
    lemma_go_prefix(requested);
    if i > 0 && go_candidate(releases[0], requested) is None {
        assert(releases.drop_first()[i - 1] == releases[i]);
        lemma_first_go_finds(releases.drop_first(), requested, i - 1);
    }
}

/// Where the metadata lists a stable release `go<V>`, requesting exactly
/// `V` never fails for want of a matching release.
pub proof fn lemma_go_exact_request_matches(metadata: Json, requested: Seq<char>, arch: Seq<char>, i: int)
    requires
        as_items(metadata) matches Some(releases) && 0 <= i < releases.len() && as_text(index(releases[i], "version"@))
            == Some("go"@ + requested),
        stable_go("go"@ + requested),
    ensures
        latest_go_result(metadata, requested, arch) != Err::<(Seq<char>, Seq<char>, Seq<char>), Seq<char>>(
            "Go metadata has no matching stable release"@,
        ),
{
    reveal_strlit("Go metadata has no matching stable release");
    reveal_strlit("Go metadata has no matching archive checksum");
    let releases = as_items(metadata)->Some_0;
    lemma_first_go_finds(releases, requested, i);
    assert("Go metadata has no matching stable release"@.len() != "Go metadata has no matching archive checksum"@.len());
}

/// Where the first release is the stable `go<V>` with the archive for the
/// architecture, requesting `V` gives `V`, that archive and its checksum.
pub proof fn lemma_go_first_release_exact(metadata: Json, requested: Seq<char>, arch: Seq<char>, checksum: Seq<char>)
    requires
        as_items(metadata) matches Some(releases) && releases.len() > 0 && as_text(index(releases[0], "version"@))
            == Some("go"@ + requested),
        stable_go("go"@ + requested),
        go_checksum(as_items(metadata)->Some_0, "go"@ + requested, go_filename(requested, arch)) == Some(checksum),
    ensures
        latest_go_result(metadata, requested, arch) == Ok::<(Seq<char>, Seq<char>, Seq<char>), Seq<char>>(
            (requested, go_filename(requested, arch), checksum),
        ),
{
    lemma_go_prefix(requested);
}

/// The release is a stable `go<V>` whose `V` is what was requested:
/// `latest`, exactly `V`, or a prefix of `V` that ends before a dot.
pub open spec fn release_answers(release: Json, requested: Seq<char>) -> bool {
    as_text(index(release, "version"@)) matches Some(w) && stable_go(w) && {
        let v = w.skip(2);
        requested == "latest"@ || v == requested || (has_prefix(v, requested) && v.len() > requested.len()
            && v[requested.len() as int] == '.')
    }
}

proof fn lemma_first_go_answers(releases: Seq<Json>, requested: Seq<char>, i: int)
    requires
        0 <= i < releases.len(),
        release_answers(releases[i], requested),
    ensures
        first_go(releases, requested) is Some,
    decreases i,
{
    if go_candidate(releases[0], requested) is None {
        if i == 0 {
            assert(false);
        } else {
            assert(releases.drop_first()[i - 1] == releases[i]);
            lemma_first_go_answers(releases.drop_first(), requested, i - 1);
        }
    }
}

/// Where some release of the metadata answers the request (`latest`, the
/// exact version, or a dotted prefix of it), the resolution never fails
/// for want of a matching release.
pub proof fn lemma_go_answered_request_matches(metadata: Json, requested: Seq<char>, arch: Seq<char>, i: int)
    requires
        as_items(metadata) matches Some(releases) && 0 <= i < releases.len() && release_answers(releases[i], requested),
    ensures
        latest_go_result(metadata, requested, arch) != Err::<(Seq<char>, Seq<char>, Seq<char>), Seq<char>>(
            "Go metadata has no matching stable release"@,
        ),
{
    reveal_strlit("Go metadata has no matching stable release");
    reveal_strlit("Go metadata has no matching archive checksum");
    let releases = as_items(metadata)->Some_0;
    lemma_first_go_answers(releases, requested, i);
    assert("Go metadata has no matching stable release"@.len() != "Go metadata has no matching archive checksum"@.len());
}

/// What a found release is: the first release of the metadata that
/// answers the request, listed as `go<v>`; the archive is the one for the
/// architecture, with its listed checksum.
pub proof fn lemma_go_result_is_requested(metadata: Json, requested: Seq<char>, arch: Seq<char>)
    requires
        latest_go_result(metadata, requested, arch) is Ok,
    ensures
        ({
            let (v, f, c) = latest_go_result(metadata, requested, arch)->Ok_0;
            let releases = as_items(metadata)->Some_0;
            &&& as_items(metadata) is Some
            &&& exists|i: int|
                0 <= i < releases.len() && as_text(index(#[trigger] releases[i], "version"@)) == Some("go"@ + v)
                    && release_answers(releases[i], requested) && forall|j: int| 0 <= j < i ==> !release_answers(
                    #[trigger] releases[j],
                    requested,
                )
            &&& f == go_filename(v, arch)
            &&& go_checksum(releases, "go"@ + v, f) == Some(c)
        }),
{
    let releases = as_items(metadata)->Some_0;
    lemma_first_go_sound(releases, requested);
}

proof fn lemma_first_go_sound(releases: Seq<Json>, requested: Seq<char>)
    requires
        first_go(releases, requested) is Some,
    ensures
        ({
            let v = first_go(releases, requested)->Some_0;
            exists|i: int|
                0 <= i < releases.len() && as_text(index(#[trigger] releases[i], "version"@)) == Some("go"@ + v)
                    && release_answers(releases[i], requested) && forall|j: int| 0 <= j < i ==> !release_answers(
                    #[trigger] releases[j],
                    requested,
                )
        }),
    decreases releases.len(),
{
    reveal_strlit("go");
    if go_candidate(releases[0], requested) is Some {
        let w = as_text(index(releases[0], "version"@))->Some_0;
        assert(w.subrange(0, 2) == "go"@);
        assert(w =~= "go"@ + w.skip(2));
        assert(as_text(index(releases[0], "version"@)) == Some("go"@ + first_go(releases, requested)->Some_0));
        assert(release_answers(releases[0], requested));
    } else {
        assert(!release_answers(releases[0], requested));
        lemma_first_go_sound(releases.drop_first(), requested);
        let v = first_go(releases, requested)->Some_0;
        let rest = releases.drop_first();
        let i = choose|i: int|
            0 <= i < rest.len() && as_text(index(#[trigger] rest[i], "version"@)) == Some("go"@ + v)
                && release_answers(rest[i], requested) && forall|j: int| 0 <= j < i ==> !release_answers(
                #[trigger] rest[j],
                requested,
            );
        assert(releases[i + 1] == rest[i]);
        assert forall|j: int| 0 <= j < i + 1 implies !release_answers(#[trigger] releases[j], requested) by {
            if j > 0 {
                assert(releases[j] == rest[j - 1]);
            }
        }
    }
}

proof fn lemma_scan_last(parts: Seq<Seq<char>>, rem: Seq<char>, leading: bool)
    requires
        parts.len() == 2,
    ensures
        wildcard_scan(parts, 1, rem, leading) == (parts[1].len() == 0 || crate::text::contains_seq(rem, parts[1])),
{
    reveal_with_fuel(wildcard_scan, 2);
    if parts[1].len() > 0 && crate::text::contains_seq(rem, parts[1]) {
        let w = choose|at: int| crate::text::occurs_at(rem, parts[1], at);
        lemma_occurrence_min(rem, parts[1], w);
    }
}

proof fn lemma_occurrence_min(s: Seq<char>, t: Seq<char>, at: int)
    requires
        crate::text::occurs_at(s, t, at),
    ensures
        first_occurrence(s, t) is Some,
{
    assert(crate::text::contains_seq(s, t));
}

proof fn lemma_scan_first(parts: Seq<Seq<char>>, text: Seq<char>, leading: bool)
    requires
        parts.len() == 2,
        parts[0].len() > 0,
        !leading,
    ensures
        wildcard_scan(parts, 0, text, leading) == (has_prefix(text, parts[0]) && wildcard_scan(
            parts,
            1,
            text.skip(parts[0].len() as int),
            leading,
        )),
{
    let a = parts[0];
    if has_prefix(text, a) {
        assert(crate::text::occurs_at(text, a, 0));
        lemma_first_occurrence_at(text, a, 0);
    } else if first_occurrence(text, a) is Some {
        crate::text::lemma_first_occurrence_some(text, a);
        let at = first_occurrence(text, a)->Some_0;
        if at == 0 {
            assert(has_prefix(text, a));
        }
    }
}

/// How a pattern with one star, `a*b`, matches: exactly the texts that
/// start with `a`, end with `b`, and are long enough for both.
#[verifier::spinoff_prover]
pub proof fn lemma_wildcard_one_star(a: Seq<char>, b: Seq<char>, text: Seq<char>)
    requires
        !a.contains('*'),
        !b.contains('*'),
    ensures
        wildcard_matches(a.push('*') + b, text) <==> (has_prefix(text, a) && has_suffix(text, b) && a.len() + b.len()
            <= text.len()),
{
    reveal_strlit("*");
    let p = a.push('*') + b;
    crate::text::lemma_split_free(a, '*');
    crate::text::lemma_split_append(a, '*', b);
    let parts = split(p, '*');
    assert(parts =~= seq![a, b]);
    let leading = has_prefix(p, "*"@);
    let ends = has_suffix(p, "*"@);
    assert(p[a.len() as int] == '*');
    assert(leading <==> a.len() == 0) by {
        if a.len() == 0 {
            assert(p.subrange(0, 1) =~= "*"@);
        } else {
            assert(p[0] == a[0]);
            assert(a.contains(a[0]));
            assert(p.subrange(0, 1)[0] == p[0]);
        }
    }
    assert(ends <==> b.len() == 0) by {
        if b.len() == 0 {
            assert(p.subrange(p.len() - 1, p.len() as int) =~= "*"@);
        } else {
            assert(p[p.len() - 1] == b[b.len() - 1]);
            assert(b.contains(b[b.len() - 1]));
            assert(p.subrange(p.len() - 1, p.len() as int)[0] == p[p.len() - 1]);
        }
    }
    let rem = text.skip(a.len() as int);
    lemma_scan_last(parts, rem, leading);
    if a.len() == 0 {
        assert(rem =~= text);
        assert(text.subrange(0, 0) =~= a);
        reveal_with_fuel(wildcard_scan, 2);
        assert(wildcard_scan(parts, 0, text, leading) == wildcard_scan(parts, 1, rem, leading));
    } else {
        lemma_scan_first(parts, text, leading);
    }
    if b.len() == 0 {
        assert(text.subrange(text.len() as int, text.len() as int) =~= b);
    } else if has_prefix(text, a) {
        if crate::text::contains_seq(rem, b) {
            let w = choose|at: int| crate::text::occurs_at(rem, b, at);
            assert(crate::text::occurs_at(rem, b, w));
        }
        if has_suffix(text, b) && a.len() + b.len() <= text.len() {
            let at = rem.len() - b.len();
            assert(rem.subrange(at, at + b.len()) =~= text.subrange(text.len() - b.len(), text.len() as int));
            assert(crate::text::occurs_at(rem, b, at));
        }
    }
}

} // verus!
