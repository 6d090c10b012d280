//! Language toolchain managers bootstrapped by their official installers:
//! rustup, FNM and uv.
use vstd::prelude::*;
use crate::operations::command::{checked, command_views, words, Command, CommandView};
use crate::text::{concat};

verus! {

pub open spec fn step(label: Seq<char>, program: Seq<char>, args: Seq<Seq<char>>) -> CommandView {
    CommandView { label, program, args, check: true }
}

/// The download of the rustup installer to `installer`, then its run with
/// no default toolchain.
pub open spec fn rustup_steps(installer: Seq<char>) -> Seq<CommandView> {
    seq![
        step("rustup bootstrap download"@, "curl"@,
            seq!["--proto"@, "=https"@, "--tlsv1.2"@, "-sSf"@, "-o"@, installer, "https://sh.rustup.rs"@]),
        step("rustup bootstrap"@, "sh"@, seq![installer, "-y"@, "--default-toolchain"@, "none"@]),
    ]
}

pub fn rustup(installer: &str) -> (r: Vec<Command>)
    ensures
        command_views(r@) == rustup_steps(installer@),
{
    let a = checked("rustup bootstrap download", "curl", words(&["--proto", "=https", "--tlsv1.2", "-sSf", "-o", installer, "https://sh.rustup.rs"]));
    let b = checked("rustup bootstrap", "sh", words(&[installer, "-y", "--default-toolchain", "none"]));
    let r = vec![a, b];
    assert(a@.args =~= rustup_steps(installer@)[0].args);
    assert(b@.args =~= rustup_steps(installer@)[1].args);
    assert(command_views(r@) =~= rustup_steps(installer@));
    r
}

pub const RUSTUP_MISSING: &'static str = "rustup bootstrap did not publish the managed rustup executable";

/// The download of the FNM installer to `installer`, then its run without
/// shell changes.
pub open spec fn fnm_steps(installer: Seq<char>) -> Seq<CommandView> {
    seq![
        step("FNM bootstrap download"@, "curl"@, seq!["-fsSL"@, "-o"@, installer, "https://fnm.vercel.app/install"@]),
        step("FNM bootstrap"@, "bash"@, seq![installer, "--skip-shell"@]),
    ]
}

pub fn fnm_bootstrap(installer: &str) -> (r: Vec<Command>)
    ensures
        command_views(r@) == fnm_steps(installer@),
{
    let a = checked("FNM bootstrap download", "curl", words(&["-fsSL", "-o", installer, "https://fnm.vercel.app/install"]));
    let b = checked("FNM bootstrap", "bash", words(&[installer, "--skip-shell"]));
    let r = vec![a, b];
    assert(a@.args =~= fnm_steps(installer@)[0].args);
    assert(b@.args =~= fnm_steps(installer@)[1].args);
    assert(command_views(r@) =~= fnm_steps(installer@));
    r
}

/// The error where the FNM installer left no executable at `installed`.
pub fn fnm_missing(installed: &str) -> (r: String)
    ensures
        r@ == "FNM bootstrap did not publish executable "@ + installed@,
{
    concat("FNM bootstrap did not publish executable ", installed)
}

/// The download of the uv installer to `installer`, then its run that
/// installs into `install_dir` unmanaged.
pub open spec fn uv_steps(installer: Seq<char>, install_dir: Seq<char>) -> Seq<CommandView> {
    seq![
        step("uv bootstrap download"@, "curl"@, seq!["-LsSf"@, "-o"@, installer, "https://astral.sh/uv/install.sh"@]),
        step("uv bootstrap"@, "env"@, seq!["UV_UNMANAGED_INSTALL="@ + install_dir, "sh"@, installer]),
    ]
}

pub fn uv_bootstrap(installer: &str, install_dir: &str) -> (r: Vec<Command>)
    ensures
        command_views(r@) == uv_steps(installer@, install_dir@),
{
    let a = checked("uv bootstrap download", "curl", words(&["-LsSf", "-o", installer, "https://astral.sh/uv/install.sh"]));
    let assignment = concat("UV_UNMANAGED_INSTALL=", install_dir);
    let b = checked("uv bootstrap", "env", words(&[assignment.as_str(), "sh", installer]));
    let r = vec![a, b];
    assert(a@.args =~= uv_steps(installer@, install_dir@)[0].args);
    assert(b@.args =~= uv_steps(installer@, install_dir@)[1].args);
    assert(command_views(r@) =~= uv_steps(installer@, install_dir@));
    r
}

/// The error where the uv installer left no executable at `installed`.
pub fn uv_missing(installed: &str) -> (r: String)
    ensures
        r@ == "uv bootstrap did not publish executable "@ + installed@,
{
    concat("uv bootstrap did not publish executable ", installed)
}

/// The commands that install a Node.js version with FNM and make it the
/// default: `lts` selects the latest long-term-support release.
pub open spec fn node_steps(fnm: Seq<char>, selector: Seq<char>) -> Seq<CommandView> {
    if selector == "lts"@ {
        seq![
            step("fnm install"@, fnm, seq!["install"@, "--progress"@, "never"@, "--lts"@]),
            step("fnm default"@, fnm, seq!["default"@, "--"@, "lts-latest"@]),
        ]
    } else {
        seq![
            step("fnm install"@, fnm, seq!["install"@, "--progress"@, "never"@, "--"@, selector]),
            step("fnm default"@, fnm, seq!["default"@, "--"@, selector]),
        ]
    }
}

pub fn node_version_commands(fnm: &str, selector: &str) -> (r: Vec<Command>)
    ensures
        command_views(r@) == node_steps(fnm@, selector@),
{
    let lts = crate::text::eq_str(&crate::text::chars_of(selector), "lts");
    let a = if lts {
        checked("fnm install", fnm, words(&["install", "--progress", "never", "--lts"]))
    } else {
        checked("fnm install", fnm, words(&["install", "--progress", "never", "--", selector]))
    };
    let b = checked("fnm default", fnm, words(&["default", "--", if lts { "lts-latest" } else { selector }]));
    let r = vec![a, b];
    assert(a@.args =~= node_steps(fnm@, selector@)[0].args);
    assert(b@.args =~= node_steps(fnm@, selector@)[1].args);
    assert(command_views(r@) =~= node_steps(fnm@, selector@));
    r
}

pub const FNM_UNAVAILABLE: &'static str = "fnm install: fnm is unavailable after install";

} // verus!
