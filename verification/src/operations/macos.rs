//! macOS: Homebrew, the Command Line Tools, and the `defaults` that the
//! desktop settings write.
use vstd::prelude::*;
use crate::operations::command::{checked, command_views, curl, curl_view, unchecked, words, Command, CommandView};
use crate::text::{decimal_i32, signed_text, string_views};

verus! {

/// One preference that the macOS desktop settings write.
#[derive(Clone, Copy, Debug, PartialEq, Eq, Structural)]
pub enum MacDefault {
    DarkMode(bool),
    DockAutohide(bool),
    DockRecentApplications(bool),
    ShowAllFilenameExtensions(bool),
    FinderHiddenFiles(bool),
    KeyRepeat(i32),
    InitialKeyRepeat(i32),
    TrackpadTapToClick(bool),
}

pub open spec fn defaults_write(domain: Seq<char>, key: Seq<char>, kind: Seq<char>, value: Seq<char>) -> CommandView {
    CommandView {
        label: "macOS defaults"@,
        program: "defaults"@,
        args: seq!["write"@, domain, key, kind, value],
        check: true,
    }
}

pub open spec fn bool_text(b: bool) -> Seq<char> {
    if b {
        "true"@
    } else {
        "false"@
    }
}

/// The command that writes one preference.
pub open spec fn default_command(d: MacDefault) -> CommandView {
    match d {
        MacDefault::DarkMode(true) => CommandView {
            label: "macOS appearance"@,
            program: "defaults"@,
            args: seq!["write"@, "-g"@, "AppleInterfaceStyle"@, "-string"@, "Dark"@],
            check: true,
        },
        MacDefault::DarkMode(false) => CommandView {
            label: "macOS appearance"@,
            program: "defaults"@,
            args: seq!["delete"@, "-g"@, "AppleInterfaceStyle"@],
            check: false,
        },
        MacDefault::DockAutohide(v) => defaults_write("com.apple.dock"@, "autohide"@, "-bool"@, bool_text(v)),
        MacDefault::DockRecentApplications(v) => defaults_write("com.apple.dock"@, "show-recents"@, "-bool"@, bool_text(v)),
        MacDefault::ShowAllFilenameExtensions(v) => defaults_write(
            "NSGlobalDomain"@,
            "AppleShowAllExtensions"@,
            "-bool"@,
            bool_text(v),
        ),
        MacDefault::FinderHiddenFiles(v) => defaults_write("com.apple.finder"@, "AppleShowAllFiles"@, "-bool"@, bool_text(v)),
        MacDefault::KeyRepeat(v) => defaults_write("NSGlobalDomain"@, "KeyRepeat"@, "-int"@, signed_text(v as int)),
        MacDefault::InitialKeyRepeat(v) => defaults_write("NSGlobalDomain"@, "InitialKeyRepeat"@, "-int"@, signed_text(v as int)),
        MacDefault::TrackpadTapToClick(v) => defaults_write(
            "com.apple.AppleMultitouchTrackpad"@,
            "Clicking"@,
            "-bool"@,
            bool_text(v),
        ),
    }
}

/// The Dock and Finder restarts that apply the preferences; their failures
/// (where the process is not running) are ignored.
pub open spec fn restarts() -> Seq<CommandView> {
    seq![
        CommandView { label: "Dock restart"@, program: "killall"@, args: seq!["Dock"@], check: false },
        CommandView { label: "Finder restart"@, program: "killall"@, args: seq!["Finder"@], check: false },
    ]
}

fn write_value(domain: &str, key: &str, kind: &str, value: String) -> (r: Command)
    ensures
        r@ == defaults_write(domain@, key@, kind@, value@),
{
    let args = vec!["write".to_owned(), domain.to_owned(), key.to_owned(), kind.to_owned(), value];
    let r = checked("macOS defaults", "defaults", args);
    assert(r@.args =~= seq!["write"@, domain@, key@, kind@, value@]);
    r
}

fn bool_word(b: bool) -> (r: String)
    ensures
        r@ == bool_text(b),
{
    if b {
        "true".to_owned()
    } else {
        "false".to_owned()
    }
}

fn default_command_exec(d: MacDefault) -> (r: Command)
    ensures
        r@ == default_command(d),
{
    match d {
        MacDefault::DarkMode(true) => {
            let r = checked(
                "macOS appearance",
                "defaults",
                words(&["write", "-g", "AppleInterfaceStyle", "-string", "Dark"]),
            );
            assert(r@.args =~= seq!["write"@, "-g"@, "AppleInterfaceStyle"@, "-string"@, "Dark"@]);
            r
        },
        MacDefault::DarkMode(false) => {
            let r = unchecked("macOS appearance", "defaults", words(&["delete", "-g", "AppleInterfaceStyle"]));
            assert(r@.args =~= seq!["delete"@, "-g"@, "AppleInterfaceStyle"@]);
            r
        },
        MacDefault::DockAutohide(v) => write_value("com.apple.dock", "autohide", "-bool", bool_word(v)),
        MacDefault::DockRecentApplications(v) => write_value("com.apple.dock", "show-recents", "-bool", bool_word(v)),
        MacDefault::ShowAllFilenameExtensions(v) => write_value(
            "NSGlobalDomain",
            "AppleShowAllExtensions",
            "-bool",
            bool_word(v),
        ),
        MacDefault::FinderHiddenFiles(v) => write_value("com.apple.finder", "AppleShowAllFiles", "-bool", bool_word(v)),
        MacDefault::KeyRepeat(v) => write_value("NSGlobalDomain", "KeyRepeat", "-int", decimal_i32(v)),
        MacDefault::InitialKeyRepeat(v) => write_value("NSGlobalDomain", "InitialKeyRepeat", "-int", decimal_i32(v)),
        MacDefault::TrackpadTapToClick(v) => write_value(
            "com.apple.AppleMultitouchTrackpad",
            "Clicking",
            "-bool",
            bool_word(v),
        ),
    }
}

/// The commands that write the preferences, in order, then restart the
/// Dock and Finder.
pub fn write_defaults(settings: &Vec<MacDefault>) -> (r: Vec<Command>)
    ensures
        command_views(r@) == settings@.map_values(|d: MacDefault| default_command(d)) + restarts(),
{
    let mut r: Vec<Command> = Vec::new();
    let mut i: usize = 0;
    while i < settings.len()
        invariant
            i <= settings@.len(),
            command_views(r@) == settings@.take(i as int).map_values(|d: MacDefault| default_command(d)),
        decreases settings@.len() - i,
    {
        let ghost before = command_views(r@);
        let c = default_command_exec(settings[i]);
        let ghost cv = c@;
        r.push(c);
        i += 1;
        assert(command_views(r@) =~= before.push(cv));
        assert(command_views(r@) =~= settings@.take(i as int).map_values(|d: MacDefault| default_command(d)));
    }
    assert(settings@.take(i as int) =~= settings@);
    let dock = unchecked("Dock restart", "killall", words(&["Dock"]));
    assert(dock@.args =~= seq!["Dock"@]);
    let finder = unchecked("Finder restart", "killall", words(&["Finder"]));
    assert(finder@.args =~= seq!["Finder"@]);
    let ghost before = command_views(r@);
    r.push(dock);
    r.push(finder);
    assert(command_views(r@) =~= before + restarts());
    r
}

/// The command that checks that `sudo` can be used.
pub fn validate_sudo_access() -> (r: Command)
    ensures
        r@ == (CommandView { label: "macOS sudo access"@, program: "sudo"@, args: seq!["-v"@], check: true }),
{
    let r = checked("macOS sudo access", "sudo", words(&["-v"]));
    assert(r@.args =~= seq!["-v"@]);
    r
}

pub open spec fn brew_commands(formulae: bool, casks: bool) -> Seq<Seq<Seq<char>>> {
    seq![seq!["update"@]] + (if formulae {
        seq![seq!["upgrade"@]]
    } else {
        Seq::empty()
    }) + (if casks {
        seq![seq!["upgrade"@, "--cask"@]]
    } else {
        Seq::empty()
    })
}

/// The Homebrew commands that update Homebrew and upgrade formulae and casks.
pub fn update_and_upgrade(brew: &str, formulae: bool, casks: bool) -> (r: Vec<Command>)
    ensures
        r@.len() == brew_commands(formulae, casks).len(),
        forall|i: int| 0 <= i < r@.len() ==> (#[trigger] r@[i])@.program == brew@ && r@[i]@.check
            && r@[i]@.args == brew_commands(formulae, casks)[i],
{
    let mut r: Vec<Command> = Vec::new();
    let u = checked("Homebrew update", brew, words(&["update"]));
    assert(u@.args =~= seq!["update"@]);
    r.push(u);
    if formulae {
        let f = checked("Homebrew formula upgrade", brew, words(&["upgrade"]));
        assert(f@.args =~= seq!["upgrade"@]);
        r.push(f);
    }
    if casks {
        let c = checked("Homebrew cask upgrade", brew, words(&["upgrade", "--cask"]));
        assert(c@.args =~= seq!["upgrade"@, "--cask"@]);
        r.push(c);
    }
    proof {
        let bc = brew_commands(formulae, casks);
        if formulae && casks {
            assert(bc =~= seq![seq!["update"@], seq!["upgrade"@], seq!["upgrade"@, "--cask"@]]);
        } else if formulae {
            assert(bc =~= seq![seq!["update"@], seq!["upgrade"@]]);
        } else if casks {
            assert(bc =~= seq![seq!["update"@], seq!["upgrade"@, "--cask"@]]);
        } else {
            assert(bc =~= seq![seq!["update"@]]);
        }
    }
    r
}

pub const HOMEBREW_INSTALLER: &'static str = "https://raw.githubusercontent.com/Homebrew/install/HEAD/install.sh";

pub open spec fn homebrew_steps(script: Seq<char>) -> Seq<CommandView> {
    seq![
        curl_view("Homebrew installer download"@, HOMEBREW_INSTALLER@, seq!["--proto"@, "=https"@, "--output"@, script]),
        CommandView { label: "Homebrew install"@, program: "/bin/bash"@, args: seq![script], check: true },
    ]
}

/// The install of Homebrew by its official script, downloaded to `script`;
/// none where `brew` already runs.
pub fn install_homebrew(brew_found: bool, script: &str) -> (r: Vec<Command>)
    ensures
        brew_found ==> r@.len() == 0,
        !brew_found ==> command_views(r@) == homebrew_steps(script@),
{
    if brew_found {
        return Vec::new();
    }
    let args = words(&["--proto", "=https", "--output", script]);
    assert(string_views(args@) =~= seq!["--proto"@, "=https"@, "--output"@, script@]);
    let download = curl("Homebrew installer download", HOMEBREW_INSTALLER, args);
    let run = checked("Homebrew install", "/bin/bash", words(&[script]));
    assert(run@.args =~= seq![script@]);
    let r = vec![download, run];
    assert(command_views(r@) =~= seq![download@, run@]);
    r
}

pub const BREW_UNAVAILABLE: &'static str = "Homebrew is unavailable after install; expected brew on PATH or /opt/homebrew/bin/brew";

/// The Homebrew executable: `brew` on the search path where `brew
/// --version` succeeds, else `/opt/homebrew/bin/brew` where it does.
pub fn find_brew(on_path: bool, in_opt: bool) -> (r: Result<&'static str, String>)
    ensures
        on_path ==> (r matches Ok(b) && b@ == "brew"@),
        !on_path && in_opt ==> (r matches Ok(b) && b@ == "/opt/homebrew/bin/brew"@),
        !on_path && !in_opt ==> (r matches Err(e) && e@ == BREW_UNAVAILABLE@),
{
    if on_path {
        Ok("brew")
    } else if in_opt {
        Ok("/opt/homebrew/bin/brew")
    } else {
        Err(BREW_UNAVAILABLE.to_owned())
    }
}

/// The query that succeeds where the formula or cask is installed.
pub fn installed_query(kind: &str, name: &str) -> (r: Vec<String>)
    ensures
        string_views(r@) == seq!["list"@, kind@, name@],
{
    let r = words(&["list", kind, name]);
    assert(string_views(r@) =~= seq!["list"@, kind@, name@]);
    r
}

pub open spec fn formula_install(brew: Seq<char>, formula: Seq<char>) -> CommandView {
    CommandView { label: "Homebrew formula install"@, program: brew, args: seq!["install"@, formula], check: true }
}

pub open spec fn cask_install(brew: Seq<char>, cask: Seq<char>) -> CommandView {
    CommandView { label: "Homebrew cask install"@, program: brew, args: seq!["install"@, "--cask"@, cask], check: true }
}

/// What the Homebrew package install does next.
pub enum BrewStep {
    /// Run `brew` with these arguments; its success means that the package
    /// is installed.
    Query(Vec<String>),
    /// Run this install, then go on.
    Install(Command),
    /// Every package has been looked at.
    Done,
}

pub enum BrewStepView {
    Query(Seq<Seq<char>>),
    Install(CommandView),
    Done,
}

impl View for BrewStep {
    type V = BrewStepView;

    open spec fn view(&self) -> BrewStepView {
        match self {
            BrewStep::Query(args) => BrewStepView::Query(string_views(args@)),
            BrewStep::Install(c) => BrewStepView::Install(c@),
            BrewStep::Done => BrewStepView::Done,
        }
    }
}

/// The query of package `k` of the formulae followed by the casks.
pub open spec fn package_query(formulae: Seq<Seq<char>>, casks: Seq<Seq<char>>, k: int) -> BrewStepView {
    if k < formulae.len() {
        BrewStepView::Query(seq!["list"@, "--formula"@, formulae[k]])
    } else {
        BrewStepView::Query(seq!["list"@, "--cask"@, casks[k - formulae.len()]])
    }
}

/// The install of package `k` of the formulae followed by the casks.
pub open spec fn package_install(brew: Seq<char>, formulae: Seq<Seq<char>>, casks: Seq<Seq<char>>, k: int) -> BrewStepView {
    if k < formulae.len() {
        BrewStepView::Install(formula_install(brew, formulae[k]))
    } else {
        BrewStepView::Install(cask_install(brew, casks[k - formulae.len()]))
    }
}

/// The query of package `k`, or `Done` past the last package.
pub open spec fn query_or_done(formulae: Seq<Seq<char>>, casks: Seq<Seq<char>>, k: int) -> BrewStepView {
    if k < formulae.len() + casks.len() {
        package_query(formulae, casks, k)
    } else {
        BrewStepView::Done
    }
}

/// The step of `install_packages` at package `k`, given the answer to its
/// query where it was asked.
pub open spec fn brew_step(brew: Seq<char>, f: Seq<Seq<char>>, c: Seq<Seq<char>>, k: int, installed: Option<bool>) -> (int, BrewStepView) {
    if k >= f.len() + c.len() {
        (k, BrewStepView::Done)
    } else {
        match installed {
            None => (k, package_query(f, c, k)),
            Some(false) => (k + 1, package_install(brew, f, c, k)),
            Some(true) => (k + 1, query_or_done(f, c, k + 1)),
        }
    }
}

pub open spec fn install_of(brew: Seq<char>, f: Seq<Seq<char>>, c: Seq<Seq<char>>, k: int) -> CommandView {
    if k < f.len() {
        formula_install(brew, f[k])
    } else {
        cask_install(brew, c[k - f.len()])
    }
}

/// The installs of the packages from `k` on, formulae then casks, of those
/// whose query found them missing (`installed[k]` is the answer for
/// package `k`).
pub open spec fn installs_from(brew: Seq<char>, f: Seq<Seq<char>>, c: Seq<Seq<char>>, installed: Seq<bool>, k: int) -> Seq<CommandView>
    decreases f.len() + c.len() - k,
{
    if k < 0 || k >= f.len() + c.len() {
        Seq::empty()
    } else if installed[k] {
        installs_from(brew, f, c, installed, k + 1)
    } else {
        seq![install_of(brew, f, c, k)] + installs_from(brew, f, c, installed, k + 1)
    }
}

/// The installs that at most `steps` steps of `install_packages` run from
/// package `k`, each query answered by `installed`; `asked` tells whether
/// the query of package `k` has been made.
pub open spec fn brew_run(brew: Seq<char>, f: Seq<Seq<char>>, c: Seq<Seq<char>>, installed: Seq<bool>, k: int, asked: bool, steps: nat) -> Seq<CommandView>
    decreases steps,
{
    if steps == 0 {
        Seq::empty()
    } else {
        let answer = if asked { Some(installed[k]) } else { None };
        let (next, step) = brew_step(brew, f, c, k, answer);
        match step {
            BrewStepView::Done => Seq::empty(),
            BrewStepView::Query(_) => brew_run(brew, f, c, installed, next, true, (steps - 1) as nat),
            BrewStepView::Install(cmd) => seq![cmd] + brew_run(brew, f, c, installed, next, false, (steps - 1) as nat),
        }
    }
}

proof fn lemma_brew_run_from(brew: Seq<char>, f: Seq<Seq<char>>, c: Seq<Seq<char>>, installed: Seq<bool>, k: int, steps: nat)
    requires
        0 <= k,
        installed.len() == f.len() + c.len(),
        steps >= 2 * (f.len() + c.len() - k) + 1,
    ensures
        brew_run(brew, f, c, installed, k, false, steps) == installs_from(brew, f, c, installed, k),
    decreases f.len() + c.len() - k,
{
    let n = f.len() + c.len();
    if k < n {
        assert(steps >= 3);
        let s1 = (steps - 1) as nat;
        let s2 = (steps - 2) as nat;
        assert(brew_run(brew, f, c, installed, k, false, steps) == brew_run(brew, f, c, installed, k, true, s1));
        lemma_brew_run_from(brew, f, c, installed, k + 1, s2);
        if installed[k] {
            if k + 1 < n {
                lemma_brew_run_from(brew, f, c, installed, k + 1, s1);
                assert(brew_run(brew, f, c, installed, k + 1, false, s1) == brew_run(brew, f, c, installed, k + 1, true, s2));
            }
        } else {
            assert(package_install(brew, f, c, k) == BrewStepView::Install(install_of(brew, f, c, k)));
        }
    }
}

/// Installing Homebrew packages asks after each package, formulae first
/// and casks after, and installs exactly those found missing, in order,
/// each just after its own query.
pub proof fn lemma_install_packages_run(brew: Seq<char>, formulae: Seq<Seq<char>>, casks: Seq<Seq<char>>, installed: Seq<bool>)
    requires
        installed.len() == formulae.len() + casks.len(),
    ensures
        brew_run(brew, formulae, casks, installed, 0, false, (2 * (formulae.len() + casks.len()) + 1) as nat)
            == installs_from(brew, formulae, casks, installed, 0),
{
    lemma_brew_run_from(brew, formulae, casks, installed, 0, (2 * (formulae.len() + casks.len()) + 1) as nat);
}

/// One step of installing the missing formulae, then the missing casks, each
/// one looked up just before it is installed. `position` is the package at
/// hand, counted over the formulae followed by the casks; `installed` is the
/// answer to its query, or `None` where it has not been asked (at the start,
/// and after an install ran). The result is the next position and what to do.
pub fn install_packages(
    brew: &str,
    formulae: &Vec<String>,
    casks: &Vec<String>,
    position: usize,
    installed: Option<bool>,
) -> (r: (usize, BrewStep))
    requires
        formulae@.len() + casks@.len() <= usize::MAX,
    ensures
        (r.0 as int, r.1@) == brew_step(brew@, string_views(formulae@), string_views(casks@), position as int, installed),
{
    let in_formulae = position < formulae.len();
    if !in_formulae && position - formulae.len() >= casks.len() {
        return (position, BrewStep::Done);
    }
    let k = if installed == Some(true) {
        position + 1
    } else {
        position
    };
    if installed == Some(false) {
        let c = if in_formulae {
            let c = checked("Homebrew formula install", brew, words(&["install", formulae[position].as_str()]));
            assert(c@.args =~= seq!["install"@, formulae@[position as int]@]);
            c
        } else {
            let name = casks[position - formulae.len()].as_str();
            let c = checked("Homebrew cask install", brew, words(&["install", "--cask", name]));
            assert(c@.args =~= seq!["install"@, "--cask"@, name@]);
            c
        };
        return (position + 1, BrewStep::Install(c));
    }
    if k < formulae.len() {
        let q = installed_query("--formula", formulae[k].as_str());
        return (k, BrewStep::Query(q));
    }
    if k - formulae.len() < casks.len() {
        let q = installed_query("--cask", casks[k - formulae.len()].as_str());
        return (k, BrewStep::Query(q));
    }
    (k, BrewStep::Done)
}

pub open spec fn xcode_install() -> CommandView {
    CommandView { label: "Command Line Tools for Xcode install"@, program: "xcode-select"@, args: seq!["--install"@], check: true }
}

/// The start of Apple's interactive installer of the Command Line Tools,
/// unless `xcode-select -p` showed they are present.
pub fn install_command_line_tools_for_xcode(present: bool) -> (r: Option<Command>)
    ensures
        present ==> r is None,
        !present ==> (r matches Some(c) && c@ == xcode_install()),
{
    if present {
        return None;
    }
    let c = checked("Command Line Tools for Xcode install", "xcode-select", words(&["--install"]));
    assert(c@.args =~= seq!["--install"@]);
    Some(c)
}

} // verus!
