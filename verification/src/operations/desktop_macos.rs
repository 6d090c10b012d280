//! The macOS desktop settings: the `defaults` writes that the theme and the
//! macOS desktop section ask for, the screenshot folder they need, and the
//! Dock and Finder restarts that apply them.
use vstd::prelude::*;
use crate::config::{MacosDesktop, SearchScope, Theme, search_scope_name};
use crate::operations::command::{checked, command_views, unchecked, words, Command, CommandView};
use crate::operations::macos::{bool_text, defaults_write};
use crate::paths::{join_path, path_joined};
use crate::text::{decimal_i32, signed_text, starts_with, chars_of, has_prefix, string_of, slice_to_vec};

verus! {

/// One step of writing the macOS desktop settings.
#[derive(Debug)]
pub enum MacosStep {
    /// Run the command (a failure of a checked one stops the work).
    Run(Command),
    /// Create the directory and its parents.
    CreateDirectory(String),
}

pub enum MacosStepView {
    Run(CommandView),
    CreateDirectory(Seq<char>),
}

pub open spec fn step_view(s: MacosStep) -> MacosStepView {
    match s {
        MacosStep::Run(c) => MacosStepView::Run(c@),
        MacosStep::CreateDirectory(d) => MacosStepView::CreateDirectory(d@),
    }
}

pub open spec fn step_views(v: Seq<MacosStep>) -> Seq<MacosStepView> {
    v.map_values(|s: MacosStep| step_view(s))
}

pub const HOME_UNSET: &'static str = "HOME is not set";

pub open spec fn runs(cs: Seq<CommandView>) -> Seq<MacosStepView> {
    cs.map_values(|c: CommandView| MacosStepView::Run(c))
}

/// A boolean preference, where it is set.
pub open spec fn bool_write(v: Option<bool>, domain: Seq<char>, key: Seq<char>) -> Seq<CommandView> {
    match v {
        Some(b) => seq![defaults_write(domain, key, "-bool"@, bool_text(b))],
        None => Seq::empty(),
    }
}

/// An integer preference, where it is set.
pub open spec fn int_write(v: Option<i32>, domain: Seq<char>, key: Seq<char>) -> Seq<CommandView> {
    match v {
        Some(n) => seq![defaults_write(domain, key, "-int"@, signed_text(n as int))],
        None => Seq::empty(),
    }
}

/// The appearance: dark writes the dark style, light deletes it (a failure
/// of the deletion is ignored: a missing style already means light).
pub open spec fn theme_writes(theme: Option<Theme>) -> Seq<CommandView> {
    match theme {
        Some(Theme::Dark) => seq![CommandView {
            label: "macOS appearance"@,
            program: "defaults"@,
            args: seq!["write"@, "-g"@, "AppleInterfaceStyle"@, "-string"@, "Dark"@],
            check: true,
        }],
        Some(Theme::Light) => seq![CommandView {
            label: "macOS appearance"@,
            program: "defaults"@,
            args: seq!["delete"@, "-g"@, "AppleInterfaceStyle"@],
            check: false,
        }],
        None => Seq::empty(),
    }
}

pub open spec fn dialogs_writes(d: MacosDesktop) -> Seq<CommandView> {
    match d.dialogs {
        Some(x) => bool_write(x.expand_save_panel, "-g"@, "NSNavPanelExpandedStateForSaveMode"@)
            + bool_write(x.save_to_cloud, "-g"@, "NSDocumentSaveNewDocumentsToCloud"@),
        None => Seq::empty(),
    }
}

pub open spec fn dock_writes(d: MacosDesktop) -> Seq<CommandView> {
    match d.dock {
        Some(x) => bool_write(x.autohide, "com.apple.dock"@, "autohide"@)
            + bool_write(x.mru_spaces, "com.apple.dock"@, "mru-spaces"@)
            + bool_write(x.show_recent_applications, "com.apple.dock"@, "show-recents"@),
        None => Seq::empty(),
    }
}

pub open spec fn ds_store_writes(v: Option<bool>) -> Seq<CommandView> {
    match v {
        Some(enabled) => seq![
            defaults_write("com.apple.desktopservices"@, "DSDontWriteNetworkStores"@, "-bool"@, bool_text(!enabled)),
            defaults_write("com.apple.desktopservices"@, "DSDontWriteUSBStores"@, "-bool"@, bool_text(!enabled)),
        ],
        None => Seq::empty(),
    }
}

pub open spec fn scope_write(v: Option<SearchScope>) -> Seq<CommandView> {
    match v {
        Some(s) => seq![defaults_write("com.apple.finder"@, "FXDefaultSearchScope"@, "-string"@, search_scope_name(s))],
        None => Seq::empty(),
    }
}

pub open spec fn finder_head(x: crate::config::Finder) -> Seq<CommandView> {
    ds_store_writes(x.ds_store_on_external) + scope_write(x.search_scope)
        + bool_write(x.show_filename_extensions, "-g"@, "AppleShowAllExtensions"@)
        + bool_write(x.show_hidden_files, "com.apple.finder"@, "AppleShowAllFiles"@)
}

pub open spec fn finder_tail(x: crate::config::Finder) -> Seq<CommandView> {
    bool_write(x.show_path_bar, "com.apple.finder"@, "ShowPathbar"@)
        + bool_write(x.show_status_bar, "com.apple.finder"@, "ShowStatusBar"@)
        + bool_write(x.sort_folders_first, "com.apple.finder"@, "_FXSortFoldersFirst"@)
        + bool_write(x.warn_on_extension_change, "com.apple.finder"@, "FXEnableExtensionChangeWarning"@)
}

pub open spec fn finder_writes(d: MacosDesktop) -> Seq<CommandView> {
    match d.finder {
        Some(x) => finder_head(x) + finder_tail(x),
        None => Seq::empty(),
    }
}

pub open spec fn substitution_writes(v: Option<bool>) -> Seq<CommandView> {
    bool_write(v, "-g"@, "NSAutomaticCapitalizationEnabled"@)
        + bool_write(v, "-g"@, "NSAutomaticDashSubstitutionEnabled"@)
        + bool_write(v, "-g"@, "NSAutomaticPeriodSubstitutionEnabled"@)
        + bool_write(v, "-g"@, "NSAutomaticQuoteSubstitutionEnabled"@)
        + bool_write(v, "-g"@, "NSAutomaticSpellingCorrectionEnabled"@)
}

pub open spec fn navigation_write(v: Option<bool>) -> Seq<CommandView> {
    match v {
        Some(b) => int_write(Some(if b { 2i32 } else { 0i32 }), "-g"@, "AppleKeyboardUIMode"@),
        None => Seq::empty(),
    }
}

pub open spec fn keyboard_writes(d: MacosDesktop) -> Seq<CommandView> {
    match d.keyboard {
        Some(x) => substitution_writes(x.auto_substitutions) + navigation_write(x.keyboard_navigation)
            + int_write(x.initial_key_repeat, "-g"@, "InitialKeyRepeat"@)
            + int_write(x.key_repeat, "-g"@, "KeyRepeat"@)
            + bool_write(x.press_and_hold, "-g"@, "ApplePressAndHoldEnabled"@),
        None => Seq::empty(),
    }
}

/// Where screenshots go: a location under `~/` is taken below the home
/// directory (which must be known and not empty), any other as it stands.
pub open spec fn screenshot_folder(location: Seq<char>, home: Option<Seq<char>>) -> Result<Seq<char>, Seq<char>> {
    if has_prefix(location, "~/"@) {
        match home {
            Some(h) => if h.len() > 0 {
                Ok(path_joined(h, location.skip(2)))
            } else {
                Err(HOME_UNSET@)
            },
            None => Err(HOME_UNSET@),
        }
    } else {
        Ok(location)
    }
}

pub open spec fn screenshot_location(d: MacosDesktop) -> Option<Seq<char>> {
    match d.screenshots {
        Some(s) => match s.location {
            Some(l) => Some(l@),
            None => None,
        },
        None => None,
    }
}

pub open spec fn tap_write(d: MacosDesktop) -> Seq<CommandView> {
    match d.trackpad {
        Some(t) => bool_write(t.tap_to_click, "com.apple.AppleMultitouchTrackpad"@, "Clicking"@),
        None => Seq::empty(),
    }
}

pub open spec fn dock_restart() -> CommandView {
    CommandView { label: "Dock restart"@, program: "killall"@, args: seq!["Dock"@], check: false }
}

pub open spec fn finder_restart() -> CommandView {
    CommandView { label: "Finder restart"@, program: "killall"@, args: seq!["Finder"@], check: false }
}

/// The steps of writing the settings, in order: the appearance, then the
/// dialog, Dock, Finder and keyboard preferences, the screenshot folder
/// (created, then written), the trackpad, and last the Dock and Finder
/// restarts, each only where one of its preferences was written (their
/// failures, where the process is not running, are ignored). A screenshot
/// location under `~/` with no home directory is refused, after the
/// preferences before it were written.
pub open spec fn macos_desktop_plan(theme: Option<Theme>, desktop: Option<MacosDesktop>, home: Option<Seq<char>>)
    -> (Seq<MacosStepView>, Option<Seq<char>>)
{
    let head = runs(theme_writes(theme));
    match desktop {
        None => (head, None),
        Some(d) => {
            let before = head + runs(dialogs_writes(d) + dock_writes(d) + finder_writes(d) + keyboard_writes(d));
            let shot = match screenshot_location(d) {
                None => Ok(Seq::<MacosStepView>::empty()),
                Some(l) => match screenshot_folder(l, home) {
                    Err(e) => Err(e),
                    Ok(p) => Ok(seq![
                        MacosStepView::CreateDirectory(p),
                        MacosStepView::Run(defaults_write("com.apple.screencapture"@, "location"@, "-string"@, p)),
                    ]),
                },
            };
            match shot {
                Err(e) => (before, Some(e)),
                Ok(s) => {
                    let restarts = (if dock_writes(d).len() > 0 { seq![dock_restart()] } else { Seq::empty() })
                        + (if finder_writes(d).len() > 0 { seq![finder_restart()] } else { Seq::empty() });
                    (before + s + runs(tap_write(d) + restarts), None)
                },
            }
        },
    }
}


proof fn lemma_runs_add(a: Seq<CommandView>, b: Seq<CommandView>)
    ensures
        runs(a + b) == runs(a) + runs(b),
{
    assert(runs(a + b) =~= runs(a) + runs(b));
}

fn push_run(out: &mut Vec<MacosStep>, c: Command)
    ensures
        step_views(final(out)@) == step_views(old(out)@) + runs(seq![c@]),
{
    let ghost before = step_views(out@);
    let ghost cv = c@;
    out.push(MacosStep::Run(c));
    assert(step_views(out@) =~= before + runs(seq![cv]));
}

fn push_write(out: &mut Vec<MacosStep>, domain: &str, key: &str, kind: &str, value: String)
    ensures
        step_views(final(out)@) == step_views(old(out)@) + runs(seq![defaults_write(domain@, key@, kind@, value@)]),
{
    let args = vec!["write".to_owned(), domain.to_owned(), key.to_owned(), kind.to_owned(), value];
    let c = checked("macOS defaults", "defaults", args);
    assert(c@.args =~= seq!["write"@, domain@, key@, kind@, value@]);
    push_run(out, c);
}

fn bool_word(b: bool) -> (r: String)
    ensures
        r@ == bool_text(b),
{
    if b {
        "true".to_owned()
    } else {
        "false".to_owned()
    }
}

fn write_bool(out: &mut Vec<MacosStep>, v: Option<bool>, domain: &str, key: &str)
    ensures
        step_views(final(out)@) == step_views(old(out)@) + runs(bool_write(v, domain@, key@)),
{
    let ghost before = step_views(out@);
    if let Some(b) = v {
        push_write(out, domain, key, "-bool", bool_word(b));
    }
    assert(step_views(out@) =~= before + runs(bool_write(v, domain@, key@)));
}

fn write_int(out: &mut Vec<MacosStep>, v: Option<i32>, domain: &str, key: &str)
    ensures
        step_views(final(out)@) == step_views(old(out)@) + runs(int_write(v, domain@, key@)),
{
    let ghost before = step_views(out@);
    if let Some(n) = v {
        push_write(out, domain, key, "-int", decimal_i32(n));
    }
    assert(step_views(out@) =~= before + runs(int_write(v, domain@, key@)));
}


fn write_theme(out: &mut Vec<MacosStep>, theme: Option<Theme>)
    ensures
        step_views(final(out)@) == step_views(old(out)@) + runs(theme_writes(theme)),
{
    let ghost before = step_views(out@);
    match theme {
        Some(Theme::Dark) => {
            let c = checked("macOS appearance", "defaults", words(&["write", "-g", "AppleInterfaceStyle", "-string", "Dark"]));
            assert(c@.args =~= seq!["write"@, "-g"@, "AppleInterfaceStyle"@, "-string"@, "Dark"@]);
            push_run(out, c);
        },
        Some(Theme::Light) => {
            let c = unchecked("macOS appearance", "defaults", words(&["delete", "-g", "AppleInterfaceStyle"]));
            assert(c@.args =~= seq!["delete"@, "-g"@, "AppleInterfaceStyle"@]);
            push_run(out, c);
        },
        None => {},
    }
    assert(step_views(out@) =~= before + runs(theme_writes(theme)));
}

fn write_dialogs(out: &mut Vec<MacosStep>, d: &MacosDesktop)
    ensures
        step_views(final(out)@) == step_views(old(out)@) + runs(dialogs_writes(*d)),
{
    let ghost before = step_views(out@);
    if let Some(x) = &d.dialogs {
        write_bool(out, x.expand_save_panel, "-g", "NSNavPanelExpandedStateForSaveMode");
        write_bool(out, x.save_to_cloud, "-g", "NSDocumentSaveNewDocumentsToCloud");
        proof {
            lemma_runs_add(
                bool_write(x.expand_save_panel, "-g"@, "NSNavPanelExpandedStateForSaveMode"@),
                bool_write(x.save_to_cloud, "-g"@, "NSDocumentSaveNewDocumentsToCloud"@),
            );
        }
    }
    assert(step_views(out@) =~= before + runs(dialogs_writes(*d)));
}

fn write_dock(out: &mut Vec<MacosStep>, d: &MacosDesktop) -> (wrote: bool)
    ensures
        step_views(final(out)@) == step_views(old(out)@) + runs(dock_writes(*d)),
        wrote == (dock_writes(*d).len() > 0),
{
    let ghost before = step_views(out@);
    if let Some(x) = &d.dock {
        write_bool(out, x.autohide, "com.apple.dock", "autohide");
        write_bool(out, x.mru_spaces, "com.apple.dock", "mru-spaces");
        write_bool(out, x.show_recent_applications, "com.apple.dock", "show-recents");
        let ghost a = bool_write(x.autohide, "com.apple.dock"@, "autohide"@);
        let ghost b = bool_write(x.mru_spaces, "com.apple.dock"@, "mru-spaces"@);
        let ghost c = bool_write(x.show_recent_applications, "com.apple.dock"@, "show-recents"@);
        proof {
            lemma_runs_add(a, b);
            lemma_runs_add(a + b, c);
        }
        assert(step_views(out@) =~= before + runs(dock_writes(*d)));
        x.autohide.is_some() || x.mru_spaces.is_some() || x.show_recent_applications.is_some()
    } else {
        assert(step_views(out@) =~= before + runs(dock_writes(*d)));
        false
    }
}

fn write_finder_head(out: &mut Vec<MacosStep>, x: &crate::config::Finder)
    ensures
        step_views(final(out)@) == step_views(old(out)@) + runs(finder_head(*x)),
{
    let ghost s0 = step_views(out@);
    if let Some(enabled) = x.ds_store_on_external {
        push_write(out, "com.apple.desktopservices", "DSDontWriteNetworkStores", "-bool", bool_word(!enabled));
        push_write(out, "com.apple.desktopservices", "DSDontWriteUSBStores", "-bool", bool_word(!enabled));
    }
    assert(step_views(out@) =~= s0 + runs(ds_store_writes(x.ds_store_on_external)));
    let ghost s1 = step_views(out@);
    if let Some(scope) = x.search_scope {
        push_write(out, "com.apple.finder", "FXDefaultSearchScope", "-string", scope.as_str().to_owned());
    }
    assert(step_views(out@) =~= s1 + runs(scope_write(x.search_scope)));
    let ghost s2 = step_views(out@);
    write_bool(out, x.show_filename_extensions, "-g", "AppleShowAllExtensions");
    write_bool(out, x.show_hidden_files, "com.apple.finder", "AppleShowAllFiles");
    assert(step_views(out@) =~= s2 + runs(bool_write(x.show_filename_extensions, "-g"@, "AppleShowAllExtensions"@)
        + bool_write(x.show_hidden_files, "com.apple.finder"@, "AppleShowAllFiles"@)));
    assert(step_views(out@) =~= s0 + runs(finder_head(*x)));
}

fn write_finder_tail(out: &mut Vec<MacosStep>, x: &crate::config::Finder)
    ensures
        step_views(final(out)@) == step_views(old(out)@) + runs(finder_tail(*x)),
{
    let ghost s0 = step_views(out@);
    write_bool(out, x.show_path_bar, "com.apple.finder", "ShowPathbar");
    write_bool(out, x.show_status_bar, "com.apple.finder", "ShowStatusBar");
    write_bool(out, x.sort_folders_first, "com.apple.finder", "_FXSortFoldersFirst");
    write_bool(out, x.warn_on_extension_change, "com.apple.finder", "FXEnableExtensionChangeWarning");
    assert(step_views(out@) =~= s0 + runs(finder_tail(*x)));
}

fn write_finder(out: &mut Vec<MacosStep>, d: &MacosDesktop) -> (wrote: bool)
    ensures
        step_views(final(out)@) == step_views(old(out)@) + runs(finder_writes(*d)),
        wrote == (finder_writes(*d).len() > 0),
{
    let ghost before = step_views(out@);
    let n0 = out.len();
    if let Some(x) = &d.finder {
        write_finder_head(out, x);
        write_finder_tail(out, x);
        proof {
            lemma_runs_add(finder_head(*x), finder_tail(*x));
        }
    }
    assert(step_views(out@) =~= before + runs(finder_writes(*d)));
    assert(step_views(out@).len() == out@.len());
    assert(before.len() == n0);
    out.len() > n0
}

fn write_keyboard(out: &mut Vec<MacosStep>, d: &MacosDesktop)
    ensures
        step_views(final(out)@) == step_views(old(out)@) + runs(keyboard_writes(*d)),
{
    let ghost before = step_views(out@);
    if let Some(x) = &d.keyboard {
        let v = x.auto_substitutions;
        write_bool(out, v, "-g", "NSAutomaticCapitalizationEnabled");
        write_bool(out, v, "-g", "NSAutomaticDashSubstitutionEnabled");
        write_bool(out, v, "-g", "NSAutomaticPeriodSubstitutionEnabled");
        write_bool(out, v, "-g", "NSAutomaticQuoteSubstitutionEnabled");
        write_bool(out, v, "-g", "NSAutomaticSpellingCorrectionEnabled");
        let ghost s1 = step_views(out@);
        assert(s1 =~= before + runs(substitution_writes(v)));
        if let Some(b) = x.keyboard_navigation {
            write_int(out, Some(if b { 2i32 } else { 0i32 }), "-g", "AppleKeyboardUIMode");
        }
        assert(step_views(out@) =~= s1 + runs(navigation_write(x.keyboard_navigation)));
        write_int(out, x.initial_key_repeat, "-g", "InitialKeyRepeat");
        write_int(out, x.key_repeat, "-g", "KeyRepeat");
        write_bool(out, x.press_and_hold, "-g", "ApplePressAndHoldEnabled");
    }
    assert(step_views(out@) =~= before + runs(keyboard_writes(*d)));
}

pub open spec fn home_view(home: Option<&str>) -> Option<Seq<char>> {
    match home {
        Some(h) => Some(h@),
        None => None,
    }
}

fn screenshot_folder_exec(location: &str, home: Option<&str>) -> (r: Result<String, String>)
    ensures
        match r {
            Ok(p) => screenshot_folder(location@, home_view(home)) == Ok::<Seq<char>, Seq<char>>(p@),
            Err(e) => screenshot_folder(location@, home_view(home)) == Err::<Seq<char>, Seq<char>>(e@),
        },
{
    let l = chars_of(location);
    let tilde = chars_of("~/");
    proof {
        reveal_strlit("~/");
    }
    if starts_with(&l, &tilde) {
        match home {
            Some(h) => {
                if chars_of(h).len() == 0 {
                    return Err(HOME_UNSET.to_owned());
                }
                let rest = string_of(&slice_to_vec(&l, 2, l.len()));
                assert(rest@ =~= location@.skip(2));
                Ok(join_path(h, rest.as_str()))
            },
            None => Err(HOME_UNSET.to_owned()),
        }
    } else {
        Ok(location.to_owned())
    }
}

/// The steps that write the macOS desktop settings (`macos_desktop_plan`),
/// and the error that stops them, if any.
#[verifier::rlimit(80)]
pub fn macos_desktop_steps(theme: Option<Theme>, desktop: &Option<MacosDesktop>, home: Option<&str>)
    -> (r: (Vec<MacosStep>, Option<String>))
    ensures
        step_views(r.0@) == macos_desktop_plan(theme, *desktop, home_view(home)).0,
        match r.1 {
            None => macos_desktop_plan(theme, *desktop, home_view(home)).1 is None,
            Some(e) => macos_desktop_plan(theme, *desktop, home_view(home)).1 == Some(e@),
        },
{
    let mut out: Vec<MacosStep> = Vec::new();
    write_theme(&mut out, theme);
    assert(step_views(out@) =~= runs(theme_writes(theme)));
    let d = match desktop {
        None => {
            return (out, None);
        },
        Some(d) => d,
    };
    let ghost head = step_views(out@);
    write_dialogs(&mut out, d);
    let dock = write_dock(&mut out, d);
    let finder = write_finder(&mut out, d);
    write_keyboard(&mut out, d);
    proof {
        lemma_runs_add(dialogs_writes(*d), dock_writes(*d));
        lemma_runs_add(dialogs_writes(*d) + dock_writes(*d), finder_writes(*d));
        lemma_runs_add(dialogs_writes(*d) + dock_writes(*d) + finder_writes(*d), keyboard_writes(*d));
    }
    assert(step_views(out@) =~= head + runs(dialogs_writes(*d) + dock_writes(*d) + finder_writes(*d) + keyboard_writes(*d)));
    let ghost before = step_views(out@);
    if let Some(s) = &d.screenshots {
        if let Some(l) = &s.location {
            match screenshot_folder_exec(l.as_str(), home) {
                Err(e) => {
                    return (out, Some(e));
                },
                Ok(p) => {
                    let ghost pv = p@;
                    let q = string_of(&chars_of(p.as_str()));
                    out.push(MacosStep::CreateDirectory(q));
                    push_write(&mut out, "com.apple.screencapture", "location", "-string", p);
                    assert(step_views(out@) =~= before + seq![
                        MacosStepView::CreateDirectory(pv),
                        MacosStepView::Run(defaults_write("com.apple.screencapture"@, "location"@, "-string"@, pv)),
                    ]);
                },
            }
        }
    }
    let ghost mid = step_views(out@);
    if let Some(t) = &d.trackpad {
        write_bool(&mut out, t.tap_to_click, "com.apple.AppleMultitouchTrackpad", "Clicking");
    }
    assert(step_views(out@) =~= mid + runs(tap_write(*d)));
    let ghost mid2 = step_views(out@);
    if dock {
        let c = unchecked("Dock restart", "killall", words(&["Dock"]));
        assert(c@.args =~= seq!["Dock"@]);
        push_run(&mut out, c);
    }
    if finder {
        let c = unchecked("Finder restart", "killall", words(&["Finder"]));
        assert(c@.args =~= seq!["Finder"@]);
        push_run(&mut out, c);
    }
    let ghost restarts = (if dock_writes(*d).len() > 0 { seq![dock_restart()] } else { Seq::empty() })
        + (if finder_writes(*d).len() > 0 { seq![finder_restart()] } else { Seq::empty() });
    assert(step_views(out@) =~= mid2 + runs(restarts));
    proof {
        lemma_runs_add(tap_write(*d), restarts);
    }
    (out, None)
}

} // verus!
