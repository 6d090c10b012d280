//! The Go toolchain: which release archive to install, and whether the
//! installed toolchain is that release.
use vstd::prelude::*;
use crate::operations::command::{checked, curl, curl_view, words, Command, CommandView};
use crate::platform::Architecture;
use crate::text::{chars_of, concat, concat3, eq_chars, has_prefix, slice_to_vec, starts_with, string_of, string_views, trim, trim_chars, utf8_text};

verus! {

/// The shell line that puts the Go toolchain on `PATH`.
pub const GO_PATH_INIT: &'static str = "export PATH=\"/usr/local/go/bin:$PATH\"";

pub const NO_RELEASE_ERROR: &'static str = "Go metadata has no matching release";

pub const MALFORMED_VERSION_ERROR: &'static str = "Go metadata returned malformed release version";

pub const NO_ARCHIVE_ERROR: &'static str = "Go metadata has no matching architecture archive";

pub const CHECKSUM_ERROR: &'static str = "downloaded Go archive checksum mismatch";

pub const PINNED_WARNING: &'static str = "warning: Go update skipped because shared.tools.go is pinned to an exact version";

/// Which Go release to install: the latest, or an exact version.
#[derive(Debug)]
pub enum GoToolchainSelector {
    Latest,
    Version(String),
}

/// One file of a Go release, as `go.dev` lists it.
#[derive(Debug)]
pub struct GoFile {
    pub filename: String,
    pub sha256: String,
}

/// One Go release, as `go.dev` lists it.
#[derive(Debug)]
pub struct GoReleaseMetadata {
    pub version: String,
    pub files: Vec<GoFile>,
}

/// The release to install: its version, archive name and SHA-256.
#[derive(Debug)]
pub struct GoRelease {
    pub version: String,
    pub filename: String,
    pub sha256: String,
}

/// Go's name of the architecture (`GOARCH`), as `go version` prints it.
pub open spec fn go_arch(a: Architecture) -> Seq<char> {
    match a {
        Architecture::Amd64 => "amd64"@,
        Architecture::Arm64 => "arm64"@,
        Architecture::Arm32 => "arm"@,
        Architecture::Riscv64 => "riscv64"@,
    }
}

/// The architecture in the names of Go's release archives.
pub open spec fn go_archive_arch(a: Architecture) -> Seq<char> {
    match a {
        Architecture::Amd64 => "amd64"@,
        Architecture::Arm64 => "arm64"@,
        Architecture::Arm32 => "armv6l"@,
        Architecture::Riscv64 => "riscv64"@,
    }
}

pub fn go_arch_name(a: Architecture) -> (r: &'static str)
    ensures
        r@ == go_arch(a),
{
    match a {
        Architecture::Amd64 => "amd64",
        Architecture::Arm64 => "arm64",
        Architecture::Arm32 => "arm",
        Architecture::Riscv64 => "riscv64",
    }
}

pub fn go_archive_name(a: Architecture) -> (r: &'static str)
    ensures
        r@ == go_archive_arch(a),
{
    match a {
        Architecture::Amd64 => "amd64",
        Architecture::Arm64 => "arm64",
        Architecture::Arm32 => "armv6l",
        Architecture::Riscv64 => "riscv64",
    }
}

/// The release list to query: the current releases for the latest, all of
/// them for an exact version.
pub open spec fn metadata_url_of(selector: GoToolchainSelector) -> Seq<char> {
    match selector {
        GoToolchainSelector::Latest => "https://go.dev/dl/?mode=json"@,
        GoToolchainSelector::Version(_) => "https://go.dev/dl/?mode=json&include=all"@,
    }
}

/// The query of the release list.
pub fn metadata_query(selector: &GoToolchainSelector) -> (r: Command)
    ensures
        r@ == curl_view("Go release resolution"@, metadata_url_of(*selector), seq!["--proto"@, "=https"@]),
{
    let url = match selector {
        GoToolchainSelector::Latest => "https://go.dev/dl/?mode=json",
        GoToolchainSelector::Version(_) => "https://go.dev/dl/?mode=json&include=all",
    };
    let args = words(&["--proto", "=https"]);
    assert(string_views(args@) =~= seq!["--proto"@, "=https"@]);
    curl("Go release resolution", url, args)
}

/// A release's version without its `go` prefix, where it has one.
pub open spec fn bare_version(v: Seq<char>) -> Option<Seq<char>> {
    if has_prefix(v, "go"@) {
        Some(v.skip(2))
    } else {
        None
    }
}

/// The first of the releases, from `from` on, that the selector picks: the
/// first one for the latest, else the first whose bare version is the
/// requested one.
pub open spec fn chosen_release(selector: GoToolchainSelector, rs: Seq<GoReleaseMetadata>, from: int) -> Option<int>
    decreases rs.len() - from,
{
    if from < 0 || from >= rs.len() {
        None
    } else {
        match selector {
            GoToolchainSelector::Latest => Some(from),
            GoToolchainSelector::Version(v) => if bare_version(rs[from].version@) == Some(v@) {
                Some(from)
            } else {
                chosen_release(selector, rs, from + 1)
            },
        }
    }
}

/// The first file named `name`, from `from` on.
pub open spec fn file_named(fs: Seq<GoFile>, name: Seq<char>, from: int) -> Option<int>
    decreases fs.len() - from,
{
    if from < 0 || from >= fs.len() {
        None
    } else if fs[from].filename@ == name {
        Some(from)
    } else {
        file_named(fs, name, from + 1)
    }
}

pub open spec fn archive_name_of(version: Seq<char>, target_os: Seq<char>, a: Architecture) -> Seq<char> {
    "go"@ + version + "."@ + target_os + "-"@ + go_archive_arch(a) + ".tar.gz"@
}

/// The release to install: its version, the archive for the target system
/// and architecture, and that archive's SHA-256.
pub open spec fn resolved_release(
    selector: GoToolchainSelector,
    rs: Seq<GoReleaseMetadata>,
    a: Architecture,
    target_os: Seq<char>,
) -> Result<(Seq<char>, Seq<char>, Seq<char>), Seq<char>> {
    match chosen_release(selector, rs, 0) {
        None => Err(NO_RELEASE_ERROR@),
        Some(i) => match bare_version(rs[i].version@) {
            None => Err(MALFORMED_VERSION_ERROR@),
            Some(v) => {
                let name = archive_name_of(v, target_os, a);
                match file_named(rs[i].files@, name, 0) {
                    None => Err(NO_ARCHIVE_ERROR@),
                    Some(j) => Ok((v, name, rs[i].files@[j].sha256@)),
                }
            },
        }
    }
}

fn bare_version_of(v: &str) -> (r: Option<Vec<char>>)
    ensures
        match r {
            Some(b) => bare_version(v@) == Some(b@),
            None => bare_version(v@) is None,
        },
{
    let c = chars_of(v);
    if starts_with(&c, &chars_of("go")) {
        proof {
            reveal_strlit("go");
        }
        let b = slice_to_vec(&c, 2, c.len());
        assert(b@ =~= v@.skip(2));
        Some(b)
    } else {
        None
    }
}

pub fn resolve_release(
    selector: &GoToolchainSelector,
    releases: &Vec<GoReleaseMetadata>,
    architecture: Architecture,
    target_os: &str,
) -> (r: Result<GoRelease, String>)
    ensures
        match r {
            Ok(g) => resolved_release(*selector, releases@, architecture, target_os@)
                == Ok::<(Seq<char>, Seq<char>, Seq<char>), Seq<char>>((g.version@, g.filename@, g.sha256@)),
            Err(e) => resolved_release(*selector, releases@, architecture, target_os@)
                == Err::<(Seq<char>, Seq<char>, Seq<char>), Seq<char>>(e@),
        },
{
    let mut i: usize = 0;
    let mut chosen: Option<usize> = None;
    while i < releases.len() && chosen.is_none()
        invariant
            i <= releases@.len(),
            chosen is None ==> chosen_release(*selector, releases@, 0) == chosen_release(*selector, releases@, i as int),
            chosen matches Some(k) ==> chosen_release(*selector, releases@, 0) == Some(k as int) && k < releases@.len(),
        decreases releases@.len() - i + (if chosen is None { 1int } else { 0int }),
    {
        let picks = match selector {
            GoToolchainSelector::Latest => true,
            GoToolchainSelector::Version(v) => match bare_version_of(releases[i].version.as_str()) {
                Some(b) => eq_chars(&b, &chars_of(v.as_str())),
                None => false,
            },
        };
        if picks {
            chosen = Some(i);
        } else {
            i += 1;
        }
    }
    let k = match chosen {
        None => {
            return Err(NO_RELEASE_ERROR.to_owned());
        },
        Some(k) => k,
    };
    let release = &releases[k];
    let version = match bare_version_of(release.version.as_str()) {
        None => {
            return Err(MALFORMED_VERSION_ERROR.to_owned());
        },
        Some(b) => string_of(&b),
    };
    let mut name = concat3("go", version.as_str(), ".");
    name.append(target_os);
    name.append("-");
    name.append(go_archive_name(architecture));
    name.append(".tar.gz");
    proof {
        reveal_strlit("go");
    }
    assert(name@ =~= archive_name_of(version@, target_os@, architecture));
    let nv = chars_of(name.as_str());
    let mut j: usize = 0;
    while j < release.files.len()
        invariant
            j <= release.files@.len(),
            nv@ == name@,
            k < releases@.len(),
            *release == releases@[k as int],
            chosen_release(*selector, releases@, 0) == Some(k as int),
            bare_version(releases@[k as int].version@) == Some(version@),
            name@ == archive_name_of(version@, target_os@, architecture),
            file_named(release.files@, name@, 0) == file_named(release.files@, name@, j as int),
        decreases release.files@.len() - j,
    {
        if eq_chars(&chars_of(release.files[j].filename.as_str()), &nv) {
            assert(file_named(release.files@, name@, j as int) == Some(j as int));
            let sha = string_of(&chars_of(release.files[j].sha256.as_str()));
            return Ok(GoRelease { version, filename: name, sha256: sha });
        }
        j += 1;
    }
    Err(NO_ARCHIVE_ERROR.to_owned())
}

/// What `go version` prints for the release on the target system.
pub fn expected_version_line(version: &str, target_os: &str, architecture: Architecture) -> (r: String)
    ensures
        r@ == "go version go"@ + version@ + " "@ + target_os@ + "/"@ + go_arch(architecture),
{
    let mut r = concat3("go version go", version, " ");
    r.append(target_os);
    r.append("/");
    r.append(go_arch_name(architecture));
    r
}

/// Whether the installed toolchain is the release: the program is a regular
/// executable, `go version` succeeded, and its UTF-8 output, trimmed, is the
/// expected line.
pub open spec fn toolchain_current_of(executable: bool, ran: bool, stdout: Seq<u8>, expected: Seq<char>) -> bool {
    executable && ran && vstd::utf8::valid_utf8(stdout) && trim(vstd::utf8::decode_utf8(stdout)) == expected
}

pub fn toolchain_current(executable: bool, ran: bool, stdout: &[u8], expected: &str) -> (r: bool)
    ensures
        r == toolchain_current_of(executable, ran, stdout@, expected@),
{
    if !executable || !ran {
        return false;
    }
    match utf8_text(stdout) {
        None => false,
        Some(t) => eq_chars(&trim_chars(&chars_of(t.as_str())), &chars_of(expected)),
    }
}

/// The download of the release archive to `archive`.
pub fn archive_download(filename: &str, archive: &str) -> (r: Command)
    ensures
        r@ == curl_view("Go archive download"@, "https://go.dev/dl/"@ + filename@, seq!["--proto"@, "=https"@, "--output"@, archive@]),
{
    let url = concat("https://go.dev/dl/", filename);
    let args = words(&["--proto", "=https", "--output", archive]);
    assert(string_views(args@) =~= seq!["--proto"@, "=https"@, "--output"@, archive@]);
    curl("Go archive download", url.as_str(), args)
}

/// The archive must have the release's SHA-256.
pub fn check_archive(actual: &str, expected: &str) -> (r: Result<(), String>)
    ensures
        r is Ok <==> actual@ == expected@,
        r matches Err(e) ==> e@ == CHECKSUM_ERROR@,
{
    if eq_chars(&chars_of(actual), &chars_of(expected)) {
        Ok(())
    } else {
        Err(CHECKSUM_ERROR.to_owned())
    }
}

/// The replacement of the whole installed tree (so that no file of an
/// earlier release survives), then the extraction of the archive.
pub fn replacement_commands(archive: &str) -> (r: Vec<Command>)
    ensures
        r@.len() == 2,
        r@[0]@ == (CommandView { label: "Go installation replacement"@, program: "sudo"@, args: seq!["rm"@, "-rf"@, "/usr/local/go"@], check: true }),
        r@[1]@ == (CommandView { label: "Go archive extraction"@, program: "sudo"@, args: seq!["tar"@, "-xzf"@, archive@, "-C"@, "/usr/local"@], check: true }),
{
    let a = checked("Go installation replacement", "sudo", words(&["rm", "-rf", "/usr/local/go"]));
    assert(a@.args =~= seq!["rm"@, "-rf"@, "/usr/local/go"@]);
    let b = checked("Go archive extraction", "sudo", words(&["tar", "-xzf", archive, "-C", "/usr/local"]));
    assert(b@.args =~= seq!["tar"@, "-xzf"@, archive@, "-C"@, "/usr/local"@]);
    vec![a, b]
}

/// An update of a toolchain pinned to an exact version is skipped (with
/// `PINNED_WARNING`); the latest is installed again.
pub fn update_skipped(selector: &GoToolchainSelector) -> (r: bool)
    ensures
        r == (*selector is Version),
{
    match selector {
        GoToolchainSelector::Version(_) => true,
        GoToolchainSelector::Latest => false,
    }
}

} // verus!
