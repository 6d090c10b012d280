//! Packages installed from a downloaded binary: where the binary comes
//! from, and which asset of a GitHub release it is.
use vstd::prelude::*;
use crate::config::BinaryFormat;
use crate::patterns::{regex_compiles, regex_match, regex_matches};
use crate::platform::{canonical_name, Architecture};
use crate::text::{concat, concat3, debug_str, debug_text, decimal, decimal_text, string_views};
use crate::operations::command::{checked, curl, curl_view, words, Command, CommandView};
use crate::paths::{join_path, path_joined};

verus! {

/// Where a binary package is downloaded from: the single asset of the
/// latest GitHub release that the selector (a regular expression) matches,
/// or a fixed URL.
#[derive(Debug)]
pub enum BinarySourceOperation {
    GithubLatest { repo: String, selector: String },
    Url { url: String },
}

/// Installing one binary package for the host's architecture.
#[derive(Debug)]
pub struct BinaryPackageOperation {
    name: String,
    format: BinaryFormat,
    architecture: Architecture,
    source: BinarySourceOperation,
}

pub struct BinaryPackageView {
    pub name: Seq<char>,
    pub format: BinaryFormat,
    pub architecture: Architecture,
}

impl View for BinaryPackageOperation {
    type V = BinaryPackageView;

    closed spec fn view(&self) -> BinaryPackageView {
        BinaryPackageView { name: self.name@, format: self.format, architecture: self.architecture }
    }
}

impl BinaryPackageOperation {
    pub fn new(name: String, format: BinaryFormat, architecture: Architecture, source: BinarySourceOperation) -> (r: Self)
        ensures
            r@ == (BinaryPackageView { name: name@, format, architecture }),
            r.source() == source,
    {
        BinaryPackageOperation { name, format, architecture, source }
    }

    pub closed spec fn source(&self) -> BinarySourceOperation {
        self.source
    }

    pub fn name(&self) -> (r: &str)
        ensures
            r@ == self@.name,
    {
        self.name.as_str()
    }

    pub fn format(&self) -> (r: BinaryFormat)
        ensures
            r == self@.format,
    {
        self.format
    }

    pub fn architecture(&self) -> (r: Architecture)
        ensures
            r == self@.architecture,
    {
        self.architecture
    }

    pub fn source_ref(&self) -> (r: &BinarySourceOperation)
        ensures
            *r == self.source(),
    {
        &self.source
    }
}

/// One asset of a GitHub release, as the release metadata lists it.
#[derive(Debug)]
pub struct GithubAsset {
    pub name: String,
    pub browser_download_url: String,
}

/// The part of a GitHub release's metadata that selecting an asset reads.
#[derive(Debug)]
pub struct GithubRelease {
    pub assets: Vec<GithubAsset>,
}

/// The positions, among the first `n` assets, of those whose name the
/// selector matches.
pub open spec fn matched_upto(assets: Seq<GithubAsset>, selector: Seq<char>, n: int) -> Seq<int>
    decreases n,
{
    if n <= 0 {
        Seq::empty()
    } else if regex_matches(selector, assets[n - 1].name@) {
        matched_upto(assets, selector, n - 1).push(n - 1)
    } else {
        matched_upto(assets, selector, n - 1)
    }
}

pub const REGEX_ERROR: &'static str = "compile binary asset regex";

/// The download URL of the single asset that the selector matches: the
/// selector must compile, and exactly one asset name must match it.
pub open spec fn selected_asset(release: GithubRelease, selector: Seq<char>, op: BinaryPackageView) -> Result<Seq<char>, Seq<char>> {
    let matched = matched_upto(release.assets@, selector, release.assets@.len() as int);
    if !regex_compiles(selector) {
        Err(REGEX_ERROR@)
    } else if matched.len() != 1 {
        Err("binary package "@ + debug_text(op.name) + " ("@ + canonical_name(op.architecture) + ") selector matched "@
            + decimal_text(matched.len()) + " assets"@)
    } else {
        Ok(release.assets@[matched[0]].browser_download_url@)
    }
}

pub fn select_asset(release: &GithubRelease, selector: &str, operation: &BinaryPackageOperation) -> (r: Result<String, String>)
    ensures
        match r {
            Ok(u) => selected_asset(*release, selector@, operation@) == Ok::<Seq<char>, Seq<char>>(u@),
            Err(e) => selected_asset(*release, selector@, operation@) == Err::<Seq<char>, Seq<char>>(e@),
        },
{
    if regex_match(selector, "").is_none() {
        return Err(REGEX_ERROR.to_owned());
    }
    let assets = &release.assets;
    let ghost sel = selector@;
    let mut count: usize = 0;
    let mut first: usize = 0;
    let mut i: usize = 0;
    while i < assets.len()
        invariant
            i <= assets@.len(),
            sel == selector@,
            regex_compiles(sel),
            count == matched_upto(assets@, sel, i as int).len(),
            count <= i,
            count > 0 ==> first < assets@.len() && first == matched_upto(assets@, sel, i as int)[0],
        decreases assets@.len() - i,
    {
        let ghost before = matched_upto(assets@, sel, i as int);
        if let Some(true) = regex_match(selector, assets[i].name.as_str()) {
            if count == 0 {
                first = i;
            }
            count += 1;
            assert(matched_upto(assets@, sel, i + 1) == before.push(i as int));
        }
        i += 1;
    }
    if count != 1 {
        let quoted = debug_str(operation.name.as_str());
        let mut m = concat("binary package ", quoted.as_str());
        m.append(" (");
        m.append(operation.architecture.canonical());
        m.append(") selector matched ");
        m.append(decimal(count).as_str());
        m.append(" assets");
        return Err(m);
    }
    Ok(assets[first].browser_download_url.clone())
}


pub const GITHUB_ACCEPT: &'static str = "Accept: application/vnd.github+json";

pub const GITHUB_API_VERSION: &'static str = "X-GitHub-Api-Version: 2022-11-28";

pub const USER_AGENT: &'static str = "User-Agent: cozydot/0.1.0";

/// Where an AppImage package is published: `Applications/<name>.AppImage`
/// below the home directory (`Path::join`).
pub open spec fn appimage_destination_of(home: Seq<char>, name: Seq<char>) -> Seq<char> {
    path_joined(path_joined(home, "Applications"@), name + ".AppImage"@)
}

pub fn appimage_destination(home: &str, operation: &BinaryPackageOperation) -> (r: String)
    ensures
        r@ == appimage_destination_of(home@, operation@.name),
{
    let apps = join_path(home, "Applications");
    let file = concat(operation.name(), ".AppImage");
    join_path(apps.as_str(), file.as_str())
}

/// The query of the release that a GitHub source resolves to; none for a
/// fixed URL.
pub open spec fn release_query_of(source: BinarySourceOperation) -> Option<CommandView> {
    match source {
        BinarySourceOperation::GithubLatest { repo, .. } => Some(curl_view(
            "resolve binary package release"@,
            "https://api.github.com/repos/"@ + repo@ + "/releases/latest"@,
            seq!["--proto"@, "=https"@, "--header"@, GITHUB_ACCEPT@, "--header"@, GITHUB_API_VERSION@, "--header"@, USER_AGENT@],
        )),
        BinarySourceOperation::Url { .. } => None,
    }
}

pub fn release_query(operation: &BinaryPackageOperation) -> (r: Option<Command>)
    ensures
        match r {
            Some(c) => release_query_of(operation.source()) == Some(c@),
            None => release_query_of(operation.source()) is None,
        },
{
    match operation.source_ref() {
        BinarySourceOperation::GithubLatest { repo, .. } => {
            let endpoint = concat3("https://api.github.com/repos/", repo.as_str(), "/releases/latest");
            let args = words(&["--proto", "=https", "--header", GITHUB_ACCEPT, "--header", GITHUB_API_VERSION, "--header", USER_AGENT]);
            let c = curl("resolve binary package release", endpoint.as_str(), args);
            assert(string_views(args@) =~= seq!["--proto"@, "=https"@, "--header"@, GITHUB_ACCEPT@, "--header"@, GITHUB_API_VERSION@, "--header"@, USER_AGENT@]);
            Some(c)
        },
        BinarySourceOperation::Url { .. } => None,
    }
}

/// The download of the package's file from `url` to `temporary`.
pub fn package_download(url: &str, temporary: &str) -> (r: Command)
    ensures
        r@ == curl_view("download binary package"@, url@, seq!["--output"@, temporary@]),
{
    let args = words(&["--output", temporary]);
    assert(string_views(args@) =~= seq!["--output"@, temporary@]);
    curl("download binary package", url, args)
}

/// The install of a downloaded Debian package with APT.
pub fn package_deb_install(temporary: &str) -> (r: Command)
    ensures
        r@ == (CommandView {
            label: "binary Debian install"@,
            program: "sudo"@,
            args: seq!["DEBIAN_FRONTEND=noninteractive"@, "apt-get"@, "install"@, "-y"@, "-qq"@, "--"@, temporary@],
            check: true,
        }),
{
    let r = checked(
        "binary Debian install",
        "sudo",
        words(&["DEBIAN_FRONTEND=noninteractive", "apt-get", "install", "-y", "-qq", "--", temporary]),
    );
    assert(r@.args =~= seq!["DEBIAN_FRONTEND=noninteractive"@, "apt-get"@, "install"@, "-y"@, "-qq"@, "--"@, temporary@]);
    r
}

} // verus!
