//! Downloads: a Nerd Font installed system-wide, and a Debian package or
//! AppImage fetched from a URL or a GitHub release.
use vstd::prelude::*;
use crate::operations::command::{checked, command_views, words, Command, CommandView};
use crate::text::{chars_of, concat, concat3, ends_with, has_suffix, slice_to_vec, string_of};
use crate::paths::{join_path, parent_of, path_joined, path_parent};

verus! {

pub open spec fn nerdfont_step(program: Seq<char>, args: Seq<Seq<char>>) -> CommandView {
    CommandView { label: "nerdfont"@, program, args, check: true }
}

/// The `fc-list` argument that lists the font's files.
pub fn nerdfont_query(font: &str) -> (r: String)
    ensures
        r@ == ":family="@ + font@ + " Nerd Font"@,
{
    concat3(":family=", font, " Nerd Font")
}

pub open spec fn font_destination(font: Seq<char>) -> Seq<char> {
    "/usr/share/fonts/"@ + font
}

pub open spec fn font_url(font: Seq<char>) -> Seq<char> {
    "https://github.com/ryanoasis/nerd-fonts/releases/latest/download/"@ + font + ".tar.xz"@
}

/// The install of a font that `fc-list` did not list: download the
/// release archive to `archive`, replace the font's directory with its
/// contents, and refresh the font cache.
pub open spec fn nerdfont_install(font: Seq<char>, archive: Seq<char>) -> Seq<CommandView> {
    seq![
        nerdfont_step("curl"@, seq!["-fL"@, "-o"@, archive, font_url(font)]),
        nerdfont_step("sudo"@, seq!["rm"@, "-rf"@, font_destination(font)]),
        nerdfont_step("sudo"@, seq!["mkdir"@, "-p"@, font_destination(font)]),
        nerdfont_step("sudo"@, seq!["tar"@, "-xJ"@, "-C"@, font_destination(font), "-f"@, archive]),
        nerdfont_step("fc-cache"@, seq!["-f"@]),
    ]
}

/// The commands that install a Nerd Font system-wide: none where
/// `fc-list` already listed files of the family.
pub fn nerdfont(font: &str, listed: &[u8], archive: &str) -> (r: Vec<Command>)
    ensures
        listed@.len() > 0 ==> r@.len() == 0,
        listed@.len() == 0 ==> command_views(r@) == nerdfont_install(font@, archive@),
{
    if listed.len() > 0 {
        return Vec::new();
    }
    let destination = concat("/usr/share/fonts/", font);
    let url = concat3("https://github.com/ryanoasis/nerd-fonts/releases/latest/download/", font, ".tar.xz");
    let a = checked("nerdfont", "curl", words(&["-fL", "-o", archive, url.as_str()]));
    let b = checked("nerdfont", "sudo", words(&["rm", "-rf", destination.as_str()]));
    let c = checked("nerdfont", "sudo", words(&["mkdir", "-p", destination.as_str()]));
    let d = checked("nerdfont", "sudo", words(&["tar", "-xJ", "-C", destination.as_str(), "-f", archive]));
    let e = checked("nerdfont", "fc-cache", words(&["-f"]));
    let r = vec![a, b, c, d, e];
    let ghost want = nerdfont_install(font@, archive@);
    assert(a@.args =~= want[0].args);
    assert(b@.args =~= want[1].args);
    assert(c@.args =~= want[2].args);
    assert(d@.args =~= want[3].args);
    assert(e@.args =~= want[4].args);
    assert(command_views(r@) =~= want);
    r
}

/// The kind of a downloaded binary, by its name.
#[derive(Clone, Copy, Debug, PartialEq, Eq, Structural)]
pub enum BinaryKind {
    Deb,
    AppImage,
    Unsupported,
}

pub open spec fn kind_of(name: Seq<char>) -> BinaryKind {
    if has_suffix(name, ".deb"@) {
        BinaryKind::Deb
    } else if has_suffix(name, ".AppImage"@) {
        BinaryKind::AppImage
    } else {
        BinaryKind::Unsupported
    }
}

pub fn binary_kind(name: &str) -> (r: BinaryKind)
    ensures
        r == kind_of(name@),
{
    let v = chars_of(name);
    if ends_with(&v, &chars_of(".deb")) {
        BinaryKind::Deb
    } else if ends_with(&v, &chars_of(".AppImage")) {
        BinaryKind::AppImage
    } else {
        BinaryKind::Unsupported
    }
}

/// The name without every trailing `.deb` (`str::trim_end_matches`).
pub open spec fn without_deb(name: Seq<char>) -> Seq<char>
    decreases name.len(),
{
    if has_suffix(name, ".deb"@) && name.len() >= 4 {
        without_deb(name.subrange(0, name.len() - 4))
    } else {
        name
    }
}

/// The command that a Debian package named `name` provides.
pub fn deb_command_name(name: &str) -> (r: String)
    ensures
        r@ == without_deb(name@),
{
    let suffix = chars_of(".deb");
    proof {
        reveal_strlit(".deb");
    }
    let mut v = chars_of(name);
    assert(without_deb(name@) == without_deb(v@));
    while ends_with(&v, &suffix)
        invariant
            suffix@ == ".deb"@,
            suffix@.len() == 4,
            without_deb(name@) == without_deb(v@),
        decreases v@.len(),
    {
        assert(v@.len() >= 4);
        let shorter = slice_to_vec(&v, 0, v.len() - 4);
        assert(shorter@ =~= v@.subrange(0, v@.len() - 4));
        v = shorter;
    }
    string_of(&v)
}

/// The GitHub API endpoint of a repository's latest release.
pub fn release_endpoint(repo: &str) -> (r: String)
    ensures
        r@ == "https://api.github.com/repos/"@ + repo@ + "/releases/latest"@,
{
    concat3("https://api.github.com/repos/", repo, "/releases/latest")
}

pub open spec fn binary_step(program: Seq<char>, args: Seq<Seq<char>>) -> CommandView {
    CommandView { label: "download binary"@, program, args, check: true }
}

/// The download of the binary to a temporary path.
pub fn download_command(temporary: &str, url: &str) -> (r: Command)
    ensures
        r@ == binary_step("curl"@, seq!["-fL"@, "-o"@, temporary@, url@]),
{
    let r = checked("download binary", "curl", words(&["-fL", "-o", temporary, url]));
    assert(r@.args =~= seq!["-fL"@, "-o"@, temporary@, url@]);
    r
}

/// The query of a repository's latest release.
pub fn release_query_command(repo: &str) -> (r: Command)
    ensures
        r@ == binary_step("curl"@, seq!["-fsSL"@, "https://api.github.com/repos/"@ + repo@ + "/releases/latest"@]),
{
    let endpoint = release_endpoint(repo);
    let r = checked("download binary", "curl", words(&["-fsSL", endpoint.as_str()]));
    assert(r@.args =~= seq!["-fsSL"@, endpoint@]);
    r
}

/// The install of a downloaded Debian package.
pub fn deb_install_command(destination: &str) -> (r: Command)
    ensures
        r@ == binary_step("sudo"@, seq!["apt-get"@, "install"@, "-qq"@, destination@]),
{
    let r = checked("download binary", "sudo", words(&["apt-get", "install", "-qq", destination]));
    assert(r@.args =~= seq!["apt-get"@, "install"@, "-qq"@, destination@]);
    r
}

/// The error for a binary that is neither a Debian package nor an AppImage.
pub fn unsupported_package(name: &str) -> (r: String)
    ensures
        r@ == "download binary: unsupported package "@ + name@,
{
    concat("download binary: unsupported package ", name)
}


/// Where a downloaded binary goes: `Applications/<name>` below the home
/// directory (`Path::join`).
pub open spec fn binary_destination_of(home: Seq<char>, name: Seq<char>) -> Seq<char> {
    path_joined(path_joined(home, "Applications"@), name)
}

pub fn binary_destination(home: &str, name: &str) -> (r: String)
    ensures
        r@ == binary_destination_of(home@, name@),
{
    let apps = join_path(home, "Applications");
    join_path(apps.as_str(), name)
}

pub const NO_PARENT: &'static str = "binary destination has no parent";

/// What happens to a binary, once the destination is known and it is known
/// whether the binary is there (for a Debian package: its command is on
/// `PATH`; for an AppImage: the destination is a non-empty executable file)
/// and whether the destination exists.
#[derive(Debug)]
pub struct BinaryPlan {
    /// The binary is there; nothing else is done.
    pub installed: bool,
    /// Remove the incomplete file at the destination first.
    pub remove_destination: bool,
    /// The directory to create for the destination.
    pub parent: String,
    /// The query of the GitHub release whose asset is downloaded, where a
    /// repository is named; else the URL is downloaded as it stands.
    pub release_query: Option<Command>,
    /// How the download is finished: moved into place (an AppImage, made
    /// executable first), installed with APT (a Debian package, removed
    /// after), or refused after the download.
    pub kind: BinaryKind,
}

pub struct BinaryPlanView {
    pub installed: bool,
    pub remove_destination: bool,
    pub parent: Seq<char>,
    pub release_query: Option<CommandView>,
    pub kind: BinaryKind,
}

impl View for BinaryPlan {
    type V = BinaryPlanView;

    open spec fn view(&self) -> BinaryPlanView {
        BinaryPlanView {
            installed: self.installed,
            remove_destination: self.remove_destination,
            parent: self.parent@,
            release_query: match self.release_query {
                Some(c) => Some(c@),
                None => None,
            },
            kind: self.kind,
        }
    }
}

pub open spec fn binary_plan_of(
    name: Seq<char>,
    repo: Seq<char>,
    destination: Seq<char>,
    installed: bool,
    destination_exists: bool,
) -> Result<BinaryPlanView, Seq<char>> {
    let kind = kind_of(name);
    let done = kind != BinaryKind::Unsupported && installed;
    if done {
        Ok(BinaryPlanView { installed: true, remove_destination: false, parent: Seq::empty(), release_query: None, kind })
    } else {
        match path_parent(destination) {
            None => Err(NO_PARENT@),
            Some(parent) => Ok(BinaryPlanView {
                installed: false,
                remove_destination: kind != BinaryKind::Unsupported && destination_exists,
                parent,
                release_query: if repo.len() == 0 {
                    None
                } else {
                    Some(binary_step("curl"@, seq!["-fsSL"@, "https://api.github.com/repos/"@ + repo + "/releases/latest"@]))
                },
                kind,
            }),
        }
    }
}

/// The plan for a binary named `name`, from the URL or the GitHub
/// repository `repo` (where it is not empty), to go to `destination`.
pub fn binary_plan(name: &str, repo: &str, destination: &str, installed: bool, destination_exists: bool)
    -> (r: Result<BinaryPlan, String>)
    ensures
        match r {
            Ok(p) => binary_plan_of(name@, repo@, destination@, installed, destination_exists)
                == Ok::<BinaryPlanView, Seq<char>>(p@),
            Err(e) => binary_plan_of(name@, repo@, destination@, installed, destination_exists)
                == Err::<BinaryPlanView, Seq<char>>(e@),
        },
{
    let kind = binary_kind(name);
    if kind != BinaryKind::Unsupported && installed {
        let p = BinaryPlan {
            installed: true,
            remove_destination: false,
            parent: String::new(),
            release_query: None,
            kind,
        };
        assert(p@.parent =~= Seq::<char>::empty());
        return Ok(p);
    }
    let parent = match parent_of(destination) {
        None => {
            return Err(NO_PARENT.to_owned());
        },
        Some(p) => p,
    };
    let release_query = if chars_of(repo).len() == 0 {
        None
    } else {
        Some(release_query_command(repo))
    };
    Ok(BinaryPlan {
        installed: false,
        remove_destination: kind != BinaryKind::Unsupported && destination_exists,
        parent,
        release_query,
        kind,
    })
}

} // verus!
