//! The managed `cargo-binstall` executable: which release asset fits the
//! host, what its archive may hold, and what its managed record must say.
use vstd::prelude::*;
use crate::domain::{https_url_result, HttpsUrl};
use crate::json::{as_items, as_text, index, member, Json};
use crate::operations::fonts::safe_entry;
use crate::platform::{architecture_named, canonical_name, Architecture, UNSUPPORTED_ARCHITECTURE};
use crate::text::{
    same_outcome, chars_of, concat, concat3, decimal_u64, decimal_text, digit, eq_chars, eq_str, has_prefix,
    hex_lower, is_digit, is_hex_lower, lines, lines_of, slice_to_vec, split, split_chars,
    starts_with, string_of, utf8_text, views, all_chars, contains_char, contains_control,
    has_control,
};

verus! {

/// Installing the managed `cargo-binstall` for an architecture.
#[derive(Debug)]
pub struct CargoBinstallBootstrapOperation {
    architecture: Architecture,
}

impl CargoBinstallBootstrapOperation {
    pub fn new(architecture: Architecture) -> (r: Self)
        ensures
            r.architecture_view() == architecture,
    {
        CargoBinstallBootstrapOperation { architecture }
    }

    pub closed spec fn architecture_view(&self) -> Architecture {
        self.architecture
    }

    pub fn architecture(&self) -> (r: Architecture)
        ensures
            r == self.architecture_view(),
    {
        self.architecture
    }

    /// The words that describe the operation in a plan listing.
    pub fn display_args(&self) -> (r: Vec<String>)
        ensures
            r@.len() == 2,
            r@[0]@ == "cargo-binstall-bootstrap"@,
            r@[1]@ == canonical_name(self.architecture_view()),
    {
        vec!["cargo-binstall-bootstrap".to_owned(), self.architecture.canonical().to_owned()]
    }
}

/// The Rust target triple of the release built for the architecture.
pub open spec fn target_name(a: Architecture) -> Seq<char> {
    match a {
        Architecture::Amd64 => "x86_64-unknown-linux-musl"@,
        Architecture::Arm64 => "aarch64-unknown-linux-musl"@,
        Architecture::Arm32 => "armv7-unknown-linux-musleabihf"@,
        Architecture::Riscv64 => "riscv64gc-unknown-linux-musl"@,
    }
}

pub fn target(architecture: Architecture) -> (r: &'static str)
    ensures
        r@ == target_name(architecture),
{
    match architecture {
        Architecture::Amd64 => "x86_64-unknown-linux-musl",
        Architecture::Arm64 => "aarch64-unknown-linux-musl",
        Architecture::Arm32 => "armv7-unknown-linux-musleabihf",
        Architecture::Riscv64 => "riscv64gc-unknown-linux-musl",
    }
}

pub const LISTING_UTF8_ERROR: &'static str = "cargo-binstall archive listing is not UTF-8";

pub const LISTING_UNSAFE_ERROR: &'static str = "cargo-binstall archive contains an unsafe path";

pub const LISTING_EXECUTABLE_ERROR: &'static str = "cargo-binstall archive must contain one root executable";

/// How many entries of the listing are the root executable.
pub open spec fn executable_entries(ls: Seq<Seq<char>>) -> nat
    decreases ls.len(),
{
    if ls.len() == 0 {
        0
    } else {
        executable_entries(ls.drop_last()) + if ls.last() == "cargo-binstall"@ {
            1nat
        } else {
            0nat
        }
    }
}

/// The verdict on a `tar --list` of the release archive: safe paths, and
/// exactly one root `cargo-binstall`.
pub open spec fn listing_check(output: Seq<u8>) -> Result<(), Seq<char>> {
    if !vstd::utf8::valid_utf8(output) {
        Err(LISTING_UTF8_ERROR@)
    } else {
        let ls = lines(vstd::utf8::decode_utf8(output));
        if exists|i: int| 0 <= i < ls.len() && !safe_entry(#[trigger] ls[i]) {
            Err(LISTING_UNSAFE_ERROR@)
        } else if executable_entries(ls) != 1 {
            Err(LISTING_EXECUTABLE_ERROR@)
        } else {
            Ok(())
        }
    }
}

pub fn validate_archive_listing(output: &[u8]) -> (r: Result<(), String>)
    ensures
        match r {
            Ok(_) => listing_check(output@) is Ok,
            Err(e) => listing_check(output@) == Err::<(), Seq<char>>(e@),
        },
{
    let text = match utf8_text(output) {
        None => {
            return Err(LISTING_UTF8_ERROR.to_owned());
        },
        Some(t) => t,
    };
    let t = chars_of(text.as_str());
    let ls = lines_of(&t);
    let ghost lv = lines(t@);
    let name = chars_of("cargo-binstall");
    let mut count: usize = 0;
    let mut i: usize = 0;
    assert(lv.take(0) =~= Seq::<Seq<char>>::empty());
    while i < ls.len()
        invariant
            i <= ls@.len(),
            views(ls@) == lv,
            lv == lines(vstd::utf8::decode_utf8(output@)),
            vstd::utf8::valid_utf8(output@),
            name@ == "cargo-binstall"@,
            count <= i,
            count == executable_entries(lv.take(i as int)),
            forall|k: int| 0 <= k < i ==> safe_entry(#[trigger] lv[k]),
        decreases ls@.len() - i,
    {
        assert(lv[i as int] == ls@[i as int]@);
        if !crate::operations::fonts::safe_entry_exec(&ls[i]) {
            assert(!safe_entry(lv[i as int]));
            return Err(LISTING_UNSAFE_ERROR.to_owned());
        }
        assert(lv.take(i + 1).drop_last() =~= lv.take(i as int));
        if eq_chars(&ls[i], &name) {
            count += 1;
        }
        i += 1;
    }
    assert(lv.take(i as int) =~= lv);
    if count != 1 {
        return Err(LISTING_EXECUTABLE_ERROR.to_owned());
    }
    Ok(())
}

/// A release version: three dot-separated numbers without leading zeros.
pub open spec fn numeric_version(value: Seq<char>) -> bool {
    let parts = split(value, '.');
    parts.len() == 3 && forall|i: int| 0 <= i < parts.len() ==> #[trigger] canonical_number(parts[i])
}

pub open spec fn canonical_number(part: Seq<char>) -> bool {
    part.len() > 0 && (forall|k: int| 0 <= k < part.len() ==> is_digit(#[trigger] part[k])) && (part
        == "0"@ || part[0] != '0')
}

fn canonical_number_exec(part: &[char]) -> (r: bool)
    ensures
        r == canonical_number(part@),
{
    if part.len() == 0 {
        return false;
    }
    let mut k: usize = 0;
    while k < part.len()
        invariant
            k <= part@.len(),
            forall|j: int| 0 <= j < k ==> is_digit(#[trigger] part@[j]),
        decreases part@.len() - k,
    {
        if !digit(part[k]) {
            return false;
        }
        k += 1;
    }
    eq_str(part, "0") || part[0] != '0'
}

pub fn numeric_version_exec(value: &[char]) -> (r: bool)
    ensures
        r == numeric_version(value@),
{
    let parts = split_chars(value, '.');
    if parts.len() != 3 {
        return false;
    }
    let mut i: usize = 0;
    while i < parts.len()
        invariant
            i <= parts@.len(),
            views(parts@) == split(value@, '.'),
            parts@.len() == 3,
            forall|j: int| 0 <= j < i ==> #[trigger] canonical_number(split(value@, '.')[j]),
        decreases parts@.len() - i,
    {
        assert(split(value@, '.')[i as int] == parts@[i as int]@);
        if !canonical_number_exec(&parts[i]) {
            return false;
        }
        i += 1;
    }
    true
}

pub const VERSION_UTF8_ERROR: &'static str = "cargo-binstall version output is not UTF-8";

pub const VERSION_OUTPUT_ERROR: &'static str = "cargo-binstall returned malformed version output";

/// The version that `cargo-binstall -V` printed: its output without one
/// final newline, a numeric version.
pub open spec fn version_output_result(output: Seq<u8>) -> Result<Seq<char>, Seq<char>> {
    if !vstd::utf8::valid_utf8(output) {
        Err(VERSION_UTF8_ERROR@)
    } else {
        let t = vstd::utf8::decode_utf8(output);
        let v = if t.len() > 0 && t.last() == '\n' {
            t.drop_last()
        } else {
            t
        };
        if numeric_version(v) {
            Ok(v)
        } else {
            Err(VERSION_OUTPUT_ERROR@)
        }
    }
}

pub fn parse_version_output(output: &[u8]) -> (r: Result<String, String>)
    ensures
        match r {
            Ok(v) => version_output_result(output@) == Ok::<Seq<char>, Seq<char>>(v@),
            Err(e) => version_output_result(output@) == Err::<Seq<char>, Seq<char>>(e@),
        },
{
    let text = match utf8_text(output) {
        None => {
            return Err(VERSION_UTF8_ERROR.to_owned());
        },
        Some(t) => t,
    };
    let mut t = chars_of(text.as_str());
    if t.len() > 0 && t[t.len() - 1] == '\n' {
        t.pop();
    }
    if !numeric_version_exec(&t) {
        return Err(VERSION_OUTPUT_ERROR.to_owned());
    }
    Ok(string_of(&t))
}

pub const TAG_ERROR: &'static str = "cargo-binstall release tag must be v followed by a semantic version";

/// A release tag: `v` and a numeric version.
pub open spec fn version_tag(value: Seq<char>) -> bool {
    value.len() > 0 && value[0] == 'v' && numeric_version(value.drop_first())
}

pub fn validate_version_tag(value: &str) -> (r: Result<(), String>)
    ensures
        r is Ok <==> version_tag(value@),
        r matches Err(e) ==> e@ == TAG_ERROR@,
{
    let v = chars_of(value);
    if v.len() == 0 || v[0] != 'v' {
        return Err(TAG_ERROR.to_owned());
    }
    let rest = slice_to_vec(&v, 1, v.len());
    assert(rest@ =~= value@.drop_first());
    if !numeric_version_exec(&rest) {
        return Err(TAG_ERROR.to_owned());
    }
    Ok(())
}

pub const ASSET_NAME_ERROR: &'static str = "cargo-binstall asset name must be a safe basename";

/// A safe file name: non-empty, not only dots, without `/`, `\`, NUL or
/// control characters.
pub open spec fn safe_basename(value: Seq<char>) -> bool {
    value.len() > 0 && !(forall|k: int| 0 <= k < value.len() ==> #[trigger] value[k] == '.')
        && !value.contains('/') && !value.contains('\\') && !value.contains('\0') && !has_control(value)
}

pub fn validate_asset_name(value: &str) -> (r: Result<(), String>)
    ensures
        r is Ok <==> safe_basename(value@),
        r matches Err(e) ==> e@ == ASSET_NAME_ERROR@,
{
    let v = chars_of(value);
    let dot = |c: char| -> (b: bool)
        ensures
            b == (c == '.'),
        { c == '.' };
    if v.len() == 0 || all_chars(&v, dot, Ghost(|c: char| c == '.')) || contains_char(&v, '/')
        || contains_char(&v, '\\') || contains_char(&v, '\0') || contains_control(value) {
        return Err(ASSET_NAME_ERROR.to_owned());
    }
    Ok(())
}

pub const SHA256_ERROR: &'static str = "cargo-binstall SHA-256 must be 64 lowercase hexadecimal characters";

/// A SHA-256 digest as lowercase hexadecimal text.
pub open spec fn sha256_text(value: Seq<char>) -> bool {
    value.len() == 64 && forall|k: int| 0 <= k < value.len() ==> is_hex_lower(#[trigger] value[k])
}

pub fn validate_sha256(value: &str) -> (r: Result<(), String>)
    ensures
        r is Ok <==> sha256_text(value@),
        r matches Err(e) ==> e@ == SHA256_ERROR@,
{
    let v = chars_of(value);
    let hex = |c: char| -> (b: bool)
        ensures
            b == is_hex_lower(c),
        { hex_lower(c) };
    if v.len() != 64 || !all_chars(&v, hex, Ghost(|c: char| is_hex_lower(c))) {
        return Err(SHA256_ERROR.to_owned());
    }
    Ok(())
}

/// The version of the managed record format.
pub const RECORD_VERSION: u64 = 1;

pub const DOWNLOAD_PREFIX: &'static str = "https://github.com/cargo-bins/cargo-binstall/releases/download/";

#[derive(Clone, Copy, Debug, PartialEq, Eq, Structural)]
pub enum Status {
    Pending,
    Completed,
}

/// What the managed state records of the installed executable.
#[derive(Debug)]
pub struct Record {
    pub version: u64,
    pub status: Status,
    pub architecture: String,
    pub target: String,
    pub tag: String,
    pub asset_name: String,
    pub url: String,
    pub archive_sha256: String,
    pub executable_sha256: String,
}

/// The fields of a managed record, as text.
pub struct RecordView {
    pub version: u64,
    pub status: Status,
    pub architecture: Seq<char>,
    pub target: Seq<char>,
    pub tag: Seq<char>,
    pub asset_name: Seq<char>,
    pub url: Seq<char>,
    pub archive_sha256: Seq<char>,
    pub executable_sha256: Seq<char>,
}

impl View for Record {
    type V = RecordView;

    open spec fn view(&self) -> RecordView {
        RecordView {
            version: self.version,
            status: self.status,
            architecture: self.architecture@,
            target: self.target@,
            tag: self.tag@,
            asset_name: self.asset_name@,
            url: self.url@,
            archive_sha256: self.archive_sha256@,
            executable_sha256: self.executable_sha256@,
        }
    }
}

/// The release asset to install.
#[derive(Debug)]
pub struct Release {
    pub target: String,
    pub tag: String,
    pub asset_name: String,
    pub url: HttpsUrl,
    pub sha256: String,
}

pub open spec fn asset_name_for(target: Seq<char>) -> Seq<char> {
    "cargo-binstall-"@ + target + ".tgz"@
}

pub open spec fn download_url(tag: Seq<char>, asset_name: Seq<char>) -> Seq<char> {
    DOWNLOAD_PREFIX@ + tag + "/"@ + asset_name
}

/// The rules on a managed record, in the order they are checked.
pub open spec fn record_check(r: RecordView) -> Result<(), Seq<char>> {
    if r.version != RECORD_VERSION {
        Err("unsupported cargo-binstall managed record version "@ + decimal_text(r.version as nat))
    } else {
        match architecture_named(r.architecture) {
            None => Err(UNSUPPORTED_ARCHITECTURE@),
            Some(a) => record_identity_check(r, a),
        }
    }
}

pub open spec fn record_identity_check(r: RecordView, a: Architecture) -> Result<(), Seq<char>> {
    if canonical_name(a) != r.architecture || target_name(a) != r.target {
        Err("cargo-binstall managed record architecture or target is not canonical"@)
    } else if !version_tag(r.tag) {
        Err(TAG_ERROR@)
    } else if r.asset_name != asset_name_for(r.target) {
        Err("cargo-binstall managed record asset name is inconsistent"@)
    } else {
        record_url_check(r)
    }
}

pub open spec fn record_url_check(r: RecordView) -> Result<(), Seq<char>> {
    match https_url_result(r.url) {
        Err(e) => Err(e),
        Ok(u) => {
            let canonical = u == r.url && r.url == download_url(r.tag, r.asset_name);
            if !canonical {
                Err("cargo-binstall managed record URL is not canonical"@)
            } else if !sha256_text(r.archive_sha256) || !sha256_text(r.executable_sha256) {
                Err(SHA256_ERROR@)
            } else {
                Ok(())
            }
        },
    }
}

fn check_record_url(record: &Record) -> (r: Result<(), String>)
    ensures
        match r {
            Ok(_) => record_url_check(record@) is Ok,
            Err(e) => record_url_check(record@) == Err::<(), Seq<char>>(e@),
        },
{
    let url = HttpsUrl::parse(record.url.as_str())?;
    let mut expected_url = concat(DOWNLOAD_PREFIX, record.tag.as_str());
    expected_url.append("/");
    expected_url.append(record.asset_name.as_str());
    let recorded = chars_of(record.url.as_str());
    if !eq_chars(&chars_of(url.as_str()), &recorded) || !eq_chars(&recorded, &chars_of(expected_url.as_str())) {
        return Err("cargo-binstall managed record URL is not canonical".to_owned());
    }
    validate_sha256(record.archive_sha256.as_str())?;
    validate_sha256(record.executable_sha256.as_str())
}

fn check_record_identity(record: &Record, architecture: Architecture) -> (r: Result<(), String>)
    ensures
        match r {
            Ok(_) => record_identity_check(record@, architecture) is Ok,
            Err(e) => record_identity_check(record@, architecture) == Err::<(), Seq<char>>(e@),
        },
{
    let canonical = chars_of(architecture.canonical());
    let t = chars_of(target(architecture));
    if !eq_chars(&canonical, &chars_of(record.architecture.as_str())) || !eq_chars(&t, &chars_of(record.target.as_str())) {
        return Err("cargo-binstall managed record architecture or target is not canonical".to_owned());
    }
    validate_version_tag(record.tag.as_str())?;
    let expected_name = concat3("cargo-binstall-", record.target.as_str(), ".tgz");
    if !eq_chars(&chars_of(expected_name.as_str()), &chars_of(record.asset_name.as_str())) {
        return Err("cargo-binstall managed record asset name is inconsistent".to_owned());
    }
    check_record_url(record)
}

/// Checks a managed record before it is trusted or published.
pub fn validate_record(record: &Record) -> (r: Result<(), String>)
    ensures
        match r {
            Ok(_) => record_check(record@) is Ok,
            Err(e) => record_check(record@) == Err::<(), Seq<char>>(e@),
        },
{
    if record.version != RECORD_VERSION {
        let digits = decimal_u64(record.version);
        return Err(concat("unsupported cargo-binstall managed record version ", digits.as_str()));
    }
    let architecture = Architecture::normalize(record.architecture.as_str())?;
    check_record_identity(record, architecture)
}

pub struct ReleaseView {
    pub target: Seq<char>,
    pub tag: Seq<char>,
    pub asset_name: Seq<char>,
    pub url: Seq<char>,
    pub sha256: Seq<char>,
}

impl View for Release {
    type V = ReleaseView;

    open spec fn view(&self) -> ReleaseView {
        ReleaseView {
            target: self.target@,
            tag: self.tag@,
            asset_name: self.asset_name@,
            url: self.url@,
            sha256: self.sha256@,
        }
    }
}

pub open spec fn asset_error(index: int, detail: Seq<char>) -> Seq<char> {
    "cargo-binstall GitHub asset "@ + decimal_text(index as nat) + detail
}

/// One asset of the release read into the selection so far: every asset
/// must be an object with a safe name; the asset named for the target
/// must be unique and carry an HTTPS download URL and a SHA-256 digest.
pub open spec fn asset_step(
    selected: Option<(Seq<char>, Seq<char>)>,
    index: int,
    asset: Json,
    asset_name: Seq<char>,
) -> Result<Option<(Seq<char>, Seq<char>)>, Seq<char>> {
    if !(asset is Object) {
        Err(asset_error(index, " must be an object"@))
    } else {
        match (match member(asset, "name"@) {
            Some(n) => as_text(n),
            None => None,
        }) {
            None => Err(asset_error(index, " is missing name"@)),
            Some(name) => if !safe_basename(name) {
                Err(ASSET_NAME_ERROR@)
            } else if name != asset_name {
                Ok(selected)
            } else if selected is Some {
                Err("cargo-binstall release contains duplicate target assets"@)
            } else {
                match (match member(asset, "browser_download_url"@) {
                    Some(u) => as_text(u),
                    None => None,
                }) {
                    None => Err("cargo-binstall target asset is missing browser_download_url"@),
                    Some(u) => match https_url_result(u) {
                        Err(e) => Err(e),
                        Ok(url) => match (match member(asset, "digest"@) {
                            Some(d) => as_text(d),
                            None => None,
                        }) {
                            Some(d) if has_prefix(d, "sha256:"@) => if sha256_text(d.skip(7)) {
                                Ok(Some((url, d.skip(7))))
                            } else {
                                Err(SHA256_ERROR@)
                            },
                            _ => Err("cargo-binstall target asset is missing its SHA-256 digest"@),
                        },
                    },
                }
            },
        }
    }
}

pub open spec fn assets_fold(assets: Seq<Json>, n: int, asset_name: Seq<char>) -> Result<Option<(Seq<char>, Seq<char>)>, Seq<char>>
    decreases n,
{
    if n <= 0 {
        Ok(None)
    } else {
        match assets_fold(assets, n - 1, asset_name) {
            Err(e) => Err(e),
            Ok(sel) => asset_step(sel, n - 1, assets[n - 1], asset_name),
        }
    }
}

/// The release to install for the architecture, from the latest GitHub
/// release's metadata.
pub open spec fn release_result(release: Json, a: Architecture) -> Result<ReleaseView, Seq<char>> {
    let asset_name = asset_name_for(target_name(a));
    if !(release is Object) {
        Err("cargo-binstall GitHub release must be an object"@)
    } else if member(release, "draft"@) != Some(Json::Bool(false)) || member(release, "prerelease"@) != Some(
        Json::Bool(false),
    ) {
        Err("cargo-binstall GitHub release must be stable"@)
    } else {
        match (match member(release, "tag_name"@) {
            Some(t) => as_text(t),
            None => None,
        }) {
            None => Err("cargo-binstall GitHub release is missing tag_name"@),
            Some(tag) => if !version_tag(tag) {
                Err(TAG_ERROR@)
            } else {
                match (match member(release, "assets"@) {
                    Some(a) => as_items(a),
                    None => None,
                }) {
                    None => Err("cargo-binstall GitHub release is missing assets"@),
                    Some(assets) => match assets_fold(assets, assets.len() as int, asset_name) {
                        Err(e) => Err(e),
                        Ok(None) => Err("cargo-binstall release has no native target asset"@),
                        Ok(Some((url, sha256))) => if url != download_url(tag, asset_name) {
                            Err("cargo-binstall target asset URL does not match its release identity"@)
                        } else {
                            Ok(ReleaseView { target: target_name(a), tag, asset_name, url, sha256 })
                        },
                    },
                }
            },
        }
    }
}

proof fn lemma_assets_fold_err(assets: Seq<Json>, k: int, n: int, asset_name: Seq<char>)
    requires
        0 <= k <= n,
        assets_fold(assets, k, asset_name) is Err,
    ensures
        assets_fold(assets, n, asset_name) == assets_fold(assets, k, asset_name),
    decreases n - k,
{
    if n > k {
        lemma_assets_fold_err(assets, k, n - 1, asset_name);
    }
}

fn member_text<'a>(v: &'a Json, key: &str) -> (r: Option<&'a str>)
    ensures
        match r {
            Some(s) => (match member(*v, key@) {
                Some(m) => as_text(m),
                None => None,
            }) == Some(s@),
            None => (match member(*v, key@) {
                Some(m) => as_text(m),
                None => None,
            }) is None,
        },
{
    match v.get(key) {
        None => None,
        Some(m) => m.as_str(),
    }
}

fn asset_step_exec(
    selected: Option<(HttpsUrl, String)>,
    index: usize,
    asset: &Json,
    asset_name: &[char],
) -> (r: Result<Option<(HttpsUrl, String)>, String>)
    ensures
        match r {
            Ok(None) => asset_step(
                match selected {
                    Some((u, d)) => Some((u@, d@)),
                    None => None,
                },
                index as int,
                *asset,
                asset_name@,
            ) == Ok::<Option<(Seq<char>, Seq<char>)>, Seq<char>>(None),
            Ok(Some((u, d))) => asset_step(
                match selected {
                    Some((u, d)) => Some((u@, d@)),
                    None => None,
                },
                index as int,
                *asset,
                asset_name@,
            ) == Ok::<Option<(Seq<char>, Seq<char>)>, Seq<char>>(Some((u@, d@))),
            Err(e) => asset_step(
                match selected {
                    Some((u, d)) => Some((u@, d@)),
                    None => None,
                },
                index as int,
                *asset,
                asset_name@,
            ) == Err::<Option<(Seq<char>, Seq<char>)>, Seq<char>>(e@),
        },
{
    proof {
        reveal_strlit("sha256:");
    }
    match asset {
        Json::Object(_) => {},
        _ => {
            let mut m = concat("cargo-binstall GitHub asset ", crate::text::decimal(index).as_str());
            m.append(" must be an object");
            return Err(m);
        },
    }
    let name = match member_text(asset, "name") {
        None => {
            let mut m = concat("cargo-binstall GitHub asset ", crate::text::decimal(index).as_str());
            m.append(" is missing name");
            return Err(m);
        },
        Some(n) => n,
    };
    validate_asset_name(name)?;
    if !eq_chars(&chars_of(name), asset_name) {
        return Ok(selected);
    }
    if selected.is_some() {
        return Err("cargo-binstall release contains duplicate target assets".to_owned());
    }
    let url_text = match member_text(asset, "browser_download_url") {
        None => {
            return Err("cargo-binstall target asset is missing browser_download_url".to_owned());
        },
        Some(u) => u,
    };
    let url = HttpsUrl::parse(url_text)?;
    let digest = match member_text(asset, "digest") {
        None => {
            return Err("cargo-binstall target asset is missing its SHA-256 digest".to_owned());
        },
        Some(d) => chars_of(d),
    };
    if !starts_with(&digest, &chars_of("sha256:")) {
        return Err("cargo-binstall target asset is missing its SHA-256 digest".to_owned());
    }
    let sha = slice_to_vec(&digest, 7, digest.len());
    assert(sha@ =~= digest@.skip(7));
    let sha = string_of(&sha);
    validate_sha256(sha.as_str())?;
    Ok(Some((url, sha)))
}

/// The release to install for the architecture, from the metadata of the
/// latest `cargo-binstall` GitHub release.
pub fn resolve_release(release: &Json, architecture: Architecture) -> (r: Result<Release, String>)
    ensures
        match r {
            Ok(rel) => release_result(*release, architecture) == Ok::<ReleaseView, Seq<char>>(rel@),
            Err(e) => release_result(*release, architecture) == Err::<ReleaseView, Seq<char>>(e@),
        },
{
    let t = target(architecture);
    let asset_name = concat3("cargo-binstall-", t, ".tgz");
    let an = chars_of(asset_name.as_str());
    match release {
        Json::Object(_) => {},
        _ => {
            return Err("cargo-binstall GitHub release must be an object".to_owned());
        },
    }
    let stable_draft = match release.get("draft") {
        Some(Json::Bool(false)) => true,
        _ => false,
    };
    let stable_pre = match release.get("prerelease") {
        Some(Json::Bool(false)) => true,
        _ => false,
    };
    if !stable_draft || !stable_pre {
        return Err("cargo-binstall GitHub release must be stable".to_owned());
    }
    let tag = match member_text(release, "tag_name") {
        None => {
            return Err("cargo-binstall GitHub release is missing tag_name".to_owned());
        },
        Some(t) => t,
    };
    validate_version_tag(tag)?;
    let assets = match release.get("assets") {
        None => None,
        Some(a) => a.as_array(),
    };
    let assets = match assets {
        None => {
            return Err("cargo-binstall GitHub release is missing assets".to_owned());
        },
        Some(a) => a,
    };
    let ghost av = assets@;
    let mut selected: Option<(HttpsUrl, String)> = None;
    let mut i: usize = 0;
    while i < assets.len()
        invariant
            i <= av.len(),
            av == assets@,
            an@ == asset_name_for(target_name(architecture)),
            release is Object,
            member(*release, "draft"@) == Some(Json::Bool(false)),
            member(*release, "prerelease"@) == Some(Json::Bool(false)),
            (match member(*release, "tag_name"@) {
                Some(t) => as_text(t),
                None => None,
            }) == Some(tag@),
            version_tag(tag@),
            (match member(*release, "assets"@) {
                Some(a) => as_items(a),
                None => None,
            }) == Some(av),
            assets_fold(av, i as int, an@) == Ok::<Option<(Seq<char>, Seq<char>)>, Seq<char>>(
                match selected {
                    Some((u, d)) => Some((u@, d@)),
                    None => None,
                },
            ),
        decreases av.len() - i,
    {
        match asset_step_exec(selected, i, &assets[i], &an) {
            Err(e) => {
                proof {
                    assert(assets_fold(av, i + 1, an@) == Err::<Option<(Seq<char>, Seq<char>)>, Seq<char>>(e@));
                    lemma_assets_fold_err(av, i + 1, av.len() as int, an@);
                }
                return Err(e);
            },
            Ok(next) => {
                selected = next;
            },
        }
        i += 1;
    }
    let (url, sha256) = match selected {
        None => {
            return Err("cargo-binstall release has no native target asset".to_owned());
        },
        Some(s) => s,
    };
    let mut expected = concat(DOWNLOAD_PREFIX, tag);
    expected.append("/");
    expected.append(asset_name.as_str());
    if !eq_chars(&chars_of(url.as_str()), &chars_of(expected.as_str())) {
        return Err("cargo-binstall target asset URL does not match its release identity".to_owned());
    }
    Ok(Release { target: t.to_owned(), tag: tag.to_owned(), asset_name, url, sha256 })
}

/// The release that a valid managed record names.
pub open spec fn record_release(r: Record) -> Result<ReleaseView, Seq<char>> {
    match record_check(r@) {
        Err(e) => Err(e),
        Ok(_) => match https_url_result(r.url@) {
            Err(e) => Err(e),
            Ok(u) => Ok(
                ReleaseView { target: r.target@, tag: r.tag@, asset_name: r.asset_name@, url: u, sha256: r.archive_sha256@ },
            ),
        },
    }
}

pub fn release_from_record(record: &Record) -> (r: Result<Release, String>)
    ensures
        match r {
            Ok(rel) => record_release(*record) == Ok::<ReleaseView, Seq<char>>(rel@),
            Err(e) => record_release(*record) == Err::<ReleaseView, Seq<char>>(e@),
        },
{
    validate_record(record)?;
    let url = HttpsUrl::parse(record.url.as_str())?;
    Ok(Release {
        target: record.target.clone(),
        tag: record.tag.clone(),
        asset_name: record.asset_name.clone(),
        url,
        sha256: record.archive_sha256.clone(),
    })
}

/// `s` without any leading `v` (`str::trim_start_matches('v')`).
pub open spec fn trim_start_v(s: Seq<char>) -> Seq<char>
    decreases s.len(),
{
    if s.len() > 0 && s[0] == 'v' {
        trim_start_v(s.drop_first())
    } else {
        s
    }
}

/// Whether `cargo-binstall -V` output names the release of `tag`.
pub open spec fn version_matches_result(output: Seq<u8>, tag: Seq<char>) -> Result<bool, Seq<char>> {
    match version_output_result(output) {
        Err(e) => Err(e),
        Ok(v) => Ok(v == trim_start_v(tag)),
    }
}

pub fn version_matches_tag(output: &[u8], tag: &str) -> (r: Result<bool, String>)
    ensures
        match r {
            Ok(b) => version_matches_result(output@, tag@) == Ok::<bool, Seq<char>>(b),
            Err(e) => version_matches_result(output@, tag@) == Err::<bool, Seq<char>>(e@),
        },
{
    let v = parse_version_output(output)?;
    let t = chars_of(tag);
    let mut i: usize = 0;
    assert(t@.skip(0) =~= t@);
    while i < t.len() && t[i] == 'v'
        invariant
            i <= t@.len(),
            t@ == tag@,
            trim_start_v(tag@) == trim_start_v(t@.skip(i as int)),
        decreases t@.len() - i,
    {
        assert(t@.skip(i as int).drop_first() =~= t@.skip(i + 1));
        i += 1;
    }
    let rest = slice_to_vec(&t, i, t.len());
    assert(rest@ =~= t@.skip(i as int));
    Ok(eq_chars(&chars_of(v.as_str()), &rest))
}

// ------------------------------------------------------------ the bootstrap's decisions
//
// Installing the managed executable inspects the host, downloads, unpacks
// and publishes; each decision between those steps stands here, and the
// caller performs the steps.

/// Whether a path is absolute as `Path::is_absolute` tells on Unix: it
/// starts at the root.
pub open spec fn absolute_path(p: Seq<char>) -> bool {
    p.len() > 0 && p[0] == '/'
}

pub const RELATIVE_CARGO_HOME: &'static str = "cargo-binstall managed CARGO_HOME must be absolute";

/// The Cargo home that the managed executable goes under must be absolute.
pub fn check_cargo_home(path: &str) -> (r: Result<(), String>)
    ensures
        r is Ok <==> absolute_path(path@),
        r matches Err(e) ==> e@ == RELATIVE_CARGO_HOME@,
{
    let p = chars_of(path);
    if p.len() > 0 && p[0] == '/' {
        Ok(())
    } else {
        Err(RELATIVE_CARGO_HOME.to_owned())
    }
}

pub const OTHER_ARCHITECTURE: &'static str = "cargo-binstall has managed state for a different architecture";

/// A managed record must be for the host's architecture.
pub fn check_record_architecture(record: &Record, architecture: Architecture) -> (r: Result<(), String>)
    ensures
        r is Ok <==> record.architecture@ == canonical_name(architecture),
        r matches Err(e) ==> e@ == OTHER_ARCHITECTURE@,
{
    if eq_chars(&chars_of(record.architecture.as_str()), &chars_of(architecture.canonical())) {
        Ok(())
    } else {
        Err(OTHER_ARCHITECTURE.to_owned())
    }
}

/// Whether the file at the destination can be the recorded executable, by
/// what inspecting it found: a regular file owned by the effective user,
/// with one link, mode 0755 and the recorded digest. Only then is its
/// version asked.
pub open spec fn installed_file_ok(regular: bool, owned: bool, links: u64, mode: u32, sha256: Seq<char>, r: Record) -> bool {
    regular && owned && links == 1 && mode == 0o755 && sha256 == r.executable_sha256@
}

pub fn installed_file_matches(regular: bool, owned: bool, links: u64, mode: u32, sha256: &str, record: &Record) -> (r: bool)
    ensures
        r == installed_file_ok(regular, owned, links, mode, sha256@, *record),
{
    regular && owned && links == 1 && mode == 0o755
        && eq_chars(&chars_of(sha256), &chars_of(record.executable_sha256.as_str()))
}

/// What the bootstrap goes on with once it knows the managed record and
/// the state of the destination.
#[derive(Clone, Copy, Debug, PartialEq, Eq, Structural)]
pub enum BootstrapStart {
    /// The recorded executable is in place; its record is republished as
    /// completed first where it is not yet.
    Installed { republish: bool },
    /// Download and install: the recorded release where a record exists,
    /// else the latest release.
    Install { from_record: bool },
}

/// The start of the bootstrap, where the record (if any) is for the host's
/// architecture: `installed` tells whether the recorded executable is in
/// place, `exists` whether anything is at the destination.
pub open spec fn start_result(record: Option<Record>, installed: bool, exists: bool, destination: Seq<char>) -> Result<BootstrapStart, Seq<char>> {
    match record {
        Some(r) => if installed {
            Ok(BootstrapStart::Installed { republish: r.status != Status::Completed })
        } else if exists {
            Err("cargo-binstall managed executable changed at "@ + destination)
        } else {
            Ok(BootstrapStart::Install { from_record: true })
        },
        None => if exists {
            Err("cargo-binstall executable conflict at "@ + destination + "; refusing to adopt it"@)
        } else {
            Ok(BootstrapStart::Install { from_record: false })
        },
    }
}

pub fn bootstrap_start(record: &Option<Record>, installed: bool, exists: bool, destination: &str) -> (r: Result<BootstrapStart, String>)
    ensures
        match r {
            Ok(s) => start_result(*record, installed, exists, destination@) == Ok::<BootstrapStart, Seq<char>>(s),
            Err(e) => start_result(*record, installed, exists, destination@) == Err::<BootstrapStart, Seq<char>>(e@),
        },
{
    match record {
        Some(r) => if installed {
            Ok(BootstrapStart::Installed { republish: r.status != Status::Completed })
        } else if exists {
            Err(concat("cargo-binstall managed executable changed at ", destination))
        } else {
            Ok(BootstrapStart::Install { from_record: true })
        },
        None => if exists {
            Err(concat3("cargo-binstall executable conflict at ", destination, "; refusing to adopt it"))
        } else {
            Ok(BootstrapStart::Install { from_record: false })
        },
    }
}

pub const CHECKSUM_MISMATCH: &'static str = "cargo-binstall archive SHA-256 checksum mismatch";

/// The downloaded archive must have the release's digest.
pub fn check_archive_digest(actual: &str, expected: &str) -> (r: Result<(), String>)
    ensures
        r is Ok <==> actual@ == expected@,
        r matches Err(e) ==> e@ == CHECKSUM_MISMATCH@,
{
    if eq_chars(&chars_of(actual), &chars_of(expected)) {
        Ok(())
    } else {
        Err(CHECKSUM_MISMATCH.to_owned())
    }
}

pub const STAGED_VERSION_MISMATCH: &'static str = "staged cargo-binstall version does not match its release tag";

/// The staged executable's `-V` output must name the release's tag.
pub open spec fn staged_version_result(output: Seq<u8>, tag: Seq<char>) -> Result<(), Seq<char>> {
    match version_matches_result(output, tag) {
        Err(e) => Err(e),
        Ok(true) => Ok(()),
        Ok(false) => Err(STAGED_VERSION_MISMATCH@),
    }
}

pub fn check_staged_version(output: &[u8], tag: &str) -> (r: Result<(), String>)
    ensures
        same_outcome(r, staged_version_result(output@, tag@)),
{
    if version_matches_tag(output, tag)? {
        Ok(())
    } else {
        Err(STAGED_VERSION_MISMATCH.to_owned())
    }
}

/// The record of an installation that is about to be published.
pub open spec fn pending_view(a: Architecture, rel: ReleaseView, executable_sha256: Seq<char>) -> RecordView {
    RecordView {
        version: RECORD_VERSION,
        status: Status::Pending,
        architecture: canonical_name(a),
        target: rel.target,
        tag: rel.tag,
        asset_name: rel.asset_name,
        url: rel.url,
        archive_sha256: rel.sha256,
        executable_sha256,
    }
}

pub const STAGED_CHANGED: &'static str = "cargo-binstall staged executable changed from its managed record";

/// The pending record for a staged executable: refused where a managed
/// record names another executable digest, and held to the record rules.
pub open spec fn pending_result(record: Option<Record>, a: Architecture, rel: ReleaseView, executable_sha256: Seq<char>) -> Result<RecordView, Seq<char>> {
    if record matches Some(r) && r.executable_sha256@ != executable_sha256 {
        Err(STAGED_CHANGED@)
    } else {
        match record_check(pending_view(a, rel, executable_sha256)) {
            Err(e) => Err(e),
            Ok(_) => Ok(pending_view(a, rel, executable_sha256)),
        }
    }
}

pub fn pending_record(record: &Option<Record>, architecture: Architecture, release: &Release, executable_sha256: String) -> (r: Result<Record, String>)
    ensures
        match r {
            Ok(p) => pending_result(*record, architecture, release@, executable_sha256@) == Ok::<RecordView, Seq<char>>(p@),
            Err(e) => pending_result(*record, architecture, release@, executable_sha256@) == Err::<RecordView, Seq<char>>(e@),
        },
{
    if let Some(r) = record {
        if !eq_chars(&chars_of(r.executable_sha256.as_str()), &chars_of(executable_sha256.as_str())) {
            return Err(STAGED_CHANGED.to_owned());
        }
    }
    let pending = Record {
        version: RECORD_VERSION,
        status: Status::Pending,
        architecture: String::from_str(architecture.canonical()),
        target: release.target.clone(),
        tag: release.tag.clone(),
        asset_name: release.asset_name.clone(),
        url: String::from_str(release.url.as_str()),
        archive_sha256: release.sha256.clone(),
        executable_sha256,
    };
    assert(pending@ == pending_view(architecture, release@, executable_sha256@));
    validate_record(&pending)?;
    Ok(pending)
}

/// A record republished with another status: held to the record rules.
pub fn with_status(record: &Record, status: Status) -> (r: Result<Record, String>)
    ensures
        match r {
            Ok(p) => record_check(record@) is Ok && p@ == (RecordView { status, ..record@ }),
            Err(e) => record_check(record@) == Err::<(), Seq<char>>(e@),
        },
{
    let updated = Record {
        version: record.version,
        status,
        architecture: record.architecture.clone(),
        target: record.target.clone(),
        tag: record.tag.clone(),
        asset_name: record.asset_name.clone(),
        url: record.url.clone(),
        archive_sha256: record.archive_sha256.clone(),
        executable_sha256: record.executable_sha256.clone(),
    };
    validate_record(&updated)?;
    assert(record_check(updated@) == record_check(record@));
    Ok(updated)
}


/// A managed directory that its owner made writable by group or others is
/// narrowed to its permission bits without those writes.
pub open spec fn managed_directory_repair_of(is_dir: bool, uid: u32, euid: u32, mode: u32) -> Option<u32> {
    if is_dir && uid == euid && mode & 0o022 != 0 {
        Some(mode & 0o7777 & !0o022u32)
    } else {
        None
    }
}

pub fn managed_directory_repair(is_dir: bool, uid: u32, euid: u32, mode: u32) -> (r: Option<u32>)
    ensures
        r == managed_directory_repair_of(is_dir, uid, euid, mode),
{
    if is_dir && uid == euid && mode & 0o022 != 0 {
        Some(mode & 0o7777 & !0o022u32)
    } else {
        None
    }
}

/// A managed directory must be a directory that the effective user owns,
/// writable by nobody else.
pub open spec fn managed_directory_check_of(path: Seq<char>, is_dir: bool, uid: u32, euid: u32, mode: u32) -> Result<(), Seq<char>> {
    if !is_dir || uid != euid || mode & 0o022 != 0 {
        Err("managed directory "@ + path + " is unsafe"@)
    } else {
        Ok(())
    }
}

pub fn managed_directory_check(path: &str, is_dir: bool, uid: u32, euid: u32, mode: u32) -> (r: Result<(), String>)
    ensures
        match r {
            Ok(_) => managed_directory_check_of(path@, is_dir, uid, euid, mode) == Ok::<(), Seq<char>>(()),
            Err(e) => managed_directory_check_of(path@, is_dir, uid, euid, mode) == Err::<(), Seq<char>>(e@),
        },
{
    if !is_dir || uid != euid || mode & 0o022 != 0 {
        Err(concat3("managed directory ", path, " is unsafe"))
    } else {
        Ok(())
    }
}

} // verus!
