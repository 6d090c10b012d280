//! The cozydot configuration: its data model and the rules that a loaded
//! configuration must satisfy, in general and on the detected platform.
//!
//! Reading the YAML text into these types is the caller's work; every rule
//! on the values read stands here.
pub mod model;
pub mod v1;

use vstd::prelude::*;
use crate::platform::{
    desktop_name, Arch, DesktopKind, Distro, Family, Platform, PlatformIdentity,
};
use crate::text::{
    chars_of, concat, concat3, contains_control, debug_str, debug_text, element_path, eq_chars,
    eq_str, first_error, has_control, indexed, lemma_first_error_step, lemma_first_error_stop,
    lemma_first_error_whole, same_outcome, string_views,
};
use crate::patterns::{
    definition_grammar, key_file_grammar, regex_match, terminal_grammar, DEFINITION_NAME_PATTERN,
    KEY_FILE_PATTERN, TERMINAL_PATTERN,
};
use crate::paths::{file_name_of, parent_of, path_file_name, path_parent, paths_equal, same_path};
use crate::versions::{
    duration_in_reach, duration_reach, humantime_duration, parse_duration, parse_semver, semver_parse, subsecond_free,
    whole_seconds_only,
};

verus! {

/// The configuration format version.
#[derive(Clone, Copy, Debug, PartialEq, Eq, Structural)]
pub enum Version {
    V1,
}

/// A whole configuration.
#[derive(Debug)]
pub struct Config {
    pub version: Version,
    pub system: System,
    pub packages: Packages,
    pub tools: Tools,
    pub fonts: Fonts,
    pub dotfiles: Dotfiles,
    pub integrations: Integrations,
    pub desktop: Option<Desktop>,
    pub updates: Updates,
}

#[derive(Debug)]
pub struct System {
    pub debian: Option<DebianSystem>,
    pub ubuntu: Option<UbuntuSystem>,
    pub macos: MacosSystem,
}

#[derive(Debug)]
pub struct DebianSystem {
    pub sudo_group: bool,
}

#[derive(Clone, Copy, Debug, PartialEq, Eq, Structural)]
pub enum Enablement {
    Enabled,
    Disabled,
}

#[derive(Debug)]
pub struct UbuntuSystem {
    pub unattended_upgrades: Option<Enablement>,
    pub snapd: Option<Enablement>,
    pub restricted_extras: bool,
}

#[derive(Debug)]
pub struct MacosSystem {
    pub xcode: Xcode,
}

#[derive(Debug)]
pub struct Xcode {
    pub command_line_tools: bool,
}

#[derive(Debug)]
pub struct Packages {
    pub linux: LinuxPackages,
    pub macos: MacosPackages,
}

#[derive(Debug)]
pub struct LinuxPackages {
    pub apt: Option<AptPackages>,
    pub flatpak: Vec<String>,
    pub binaries: Vec<BinaryPackage>,
}

#[derive(Debug)]
pub struct AptPackages {
    pub install: Vec<String>,
    pub repos: Vec<AptRepoConfig>,
}

/// The key under which an APT repository maps a distribution to its URI.
#[derive(Clone, Copy, Debug, PartialEq, Eq, Structural)]
pub enum DistroKey {
    Default,
    Ubuntu,
    LinuxMint,
    Pop,
    Debian,
}

pub open spec fn key_of_distro(d: Distro) -> DistroKey {
    match d {
        Distro::Ubuntu => DistroKey::Ubuntu,
        Distro::LinuxMint => DistroKey::LinuxMint,
        Distro::Pop => DistroKey::Pop,
        Distro::Debian => DistroKey::Debian,
    }
}

pub open spec fn key_of_family(f: Family) -> DistroKey {
    match f {
        Family::Ubuntu => DistroKey::Ubuntu,
        Family::Debian => DistroKey::Debian,
    }
}

impl DistroKey {
    /// The key of the distribution itself.
    pub fn from_distro(distro: Distro) -> (r: Self)
        ensures
            r == key_of_distro(distro),
    {
        match distro {
            Distro::Ubuntu => DistroKey::Ubuntu,
            Distro::LinuxMint => DistroKey::LinuxMint,
            Distro::Pop => DistroKey::Pop,
            Distro::Debian => DistroKey::Debian,
        }
    }

    /// The key of the upstream family.
    pub fn from_family(family: Family) -> (r: Self)
        ensures
            r == key_of_family(family),
    {
        match family {
            Family::Ubuntu => DistroKey::Ubuntu,
            Family::Debian => DistroKey::Debian,
        }
    }
}

/// The URI mapped to `key`, if any (the first entry with that key).
pub open spec fn uri_for(uris: Seq<(DistroKey, Seq<char>)>, key: DistroKey) -> Option<Seq<char>>
    decreases uris.len(),
{
    if uris.len() == 0 {
        None
    } else if uris[0].0 == key {
        Some(uris[0].1)
    } else {
        uri_for(uris.drop_first(), key)
    }
}

pub open spec fn uri_views(uris: Seq<(DistroKey, String)>) -> Seq<(DistroKey, Seq<char>)> {
    uris.map_values(|e: (DistroKey, String)| (e.0, e.1@))
}

/// The URI that a repository uses on the platform: the distribution's own
/// entry, else its family's, else the default; none on macOS.
pub open spec fn selected_uri(uris: Seq<(DistroKey, Seq<char>)>, identity: PlatformIdentity) -> Option<(DistroKey, Seq<char>)> {
    match identity {
        PlatformIdentity::Macos => None,
        PlatformIdentity::Linux { distro, family } => {
            let exact = key_of_distro(distro);
            let base = key_of_family(family);
            if uri_for(uris, exact) is Some {
                Some((exact, uri_for(uris, exact).unwrap()))
            } else if uri_for(uris, base) is Some {
                Some((base, uri_for(uris, base).unwrap()))
            } else if uri_for(uris, DistroKey::Default) is Some {
                Some((DistroKey::Default, uri_for(uris, DistroKey::Default).unwrap()))
            } else {
                None
            }
        },
    }
}

fn find_uri(uris: &Vec<(DistroKey, String)>, key: DistroKey) -> (r: Option<usize>)
    ensures
        match r {
            Some(i) => i < uris@.len() && uri_for(uri_views(uris@), key) == Some(uris@[i as int].1@),
            None => uri_for(uri_views(uris@), key) is None,
        },
{
    let mut i: usize = 0;
    assert(uri_views(uris@).skip(0) =~= uri_views(uris@));
    while i < uris.len()
        invariant
            i <= uris@.len(),
            uri_for(uri_views(uris@), key) == uri_for(uri_views(uris@).skip(i as int), key),
        decreases uris@.len() - i,
    {
        assert(uri_views(uris@).skip(i as int).drop_first() =~= uri_views(uris@).skip(i + 1));
        assert(uri_views(uris@).skip(i as int)[0] == (uris@[i as int].0, uris@[i as int].1@));
        if uris[i].0 == key {
            return Some(i);
        }
        i += 1;
    }
    None
}

/// The repository URI for the platform, with the key it was found under.
pub fn select_distro_uri(uris: &Vec<(DistroKey, String)>, identity: PlatformIdentity) -> (r: Option<(DistroKey, &str)>)
    ensures
        match r {
            Some((k, u)) => selected_uri(uri_views(uris@), identity) == Some((k, u@)),
            None => selected_uri(uri_views(uris@), identity) is None,
        },
{
    match identity {
        PlatformIdentity::Macos => None,
        PlatformIdentity::Linux { distro, family } => {
            let keys = [DistroKey::from_distro(distro), DistroKey::from_family(family), DistroKey::Default];
            if let Some(i) = find_uri(uris, keys[0]) {
                return Some((keys[0], uris[i].1.as_str()));
            }
            if let Some(i) = find_uri(uris, keys[1]) {
                return Some((keys[1], uris[i].1.as_str()));
            }
            if let Some(i) = find_uri(uris, keys[2]) {
                return Some((keys[2], uris[i].1.as_str()));
            }
            None
        },
    }
}

#[derive(Debug)]
pub struct AptRepoConfig {
    pub name: String,
    pub key_url: String,
    pub key_path: String,
    pub uris: Vec<(DistroKey, String)>,
    pub suite: String,
    pub components: Vec<String>,
    pub arch: Option<Vec<AptArch>>,
    pub conflicts: Vec<String>,
    pub packages: Vec<String>,
}

#[derive(Clone, Copy, Debug, PartialEq, Eq, Structural)]
pub enum AptArch {
    Amd64,
    Arm64,
}

/// The release codename that a repository entry found under `key` tracks:
/// the host's own for the default key and the distribution's own key, the
/// upstream base's for a family key.
pub open spec fn repo_codename(key: DistroKey, p: Platform) -> Seq<char> {
    let exact = match p.identity {
        PlatformIdentity::Linux { distro, .. } => key == key_of_distro(distro),
        PlatformIdentity::Macos => false,
    };
    if key == DistroKey::Default || exact {
        p.distro_codename@
    } else {
        p.base_codename@
    }
}

pub fn select_repo_codename(key: DistroKey, platform: &Platform) -> (r: &str)
    ensures
        r@ == repo_codename(key, *platform),
{
    let exact = match platform.identity {
        PlatformIdentity::Linux { distro, .. } => key == DistroKey::from_distro(distro),
        PlatformIdentity::Macos => false,
    };
    if key == DistroKey::Default || exact {
        platform.distro_codename.as_str()
    } else {
        platform.base_codename.as_str()
    }
}

#[derive(Clone, Copy, Debug, PartialEq, Eq, Structural)]
pub enum BinaryFormat {
    Deb,
    AppImage,
}

#[derive(Debug)]
pub struct BinaryPackage {
    pub name: String,
    pub format: BinaryFormat,
    pub source: BinarySource,
}

/// Where a binary package comes from, per canonical architecture.
#[derive(Debug)]
pub enum BinarySource {
    GitHub { repo: String, assets: Vec<(Arch, String)> },
    Url { urls: Vec<(Arch, String)> },
}

#[derive(Debug)]
pub struct MacosPackages {
    pub homebrew: Homebrew,
}

#[derive(Debug)]
pub struct Homebrew {
    pub formulae: Vec<String>,
    pub casks: Vec<String>,
}

#[derive(Debug)]
pub struct Tools {
    pub rust: Option<String>,
    pub node: Option<String>,
    pub python: Option<String>,
    pub go: Option<String>,
    pub cargo: Vec<String>,
    pub npm: Vec<String>,
}

#[derive(Debug)]
pub struct Fonts {
    pub nerd: Vec<String>,
}

#[derive(Debug)]
pub struct Dotfiles {
    pub replace: bool,
    pub packages: DotfilePackages,
}

#[derive(Debug)]
pub struct DotfilePackages {
    pub all: Vec<String>,
    pub linux: Vec<String>,
    pub macos: Vec<String>,
}

#[derive(Debug)]
pub struct Integrations {
    pub vscode: VsCode,
    /// `skills` CLI sources such as `owner/repo@skill`
    pub skills: Vec<String>,
    pub linux: LinuxIntegrations,
}

#[derive(Debug)]
pub struct VsCode {
    pub extensions: Vec<String>,
}

#[derive(Debug)]
pub struct LinuxIntegrations {
    pub docker: Option<Docker>,
    pub virtualbox: Option<VirtualBox>,
}

#[derive(Debug)]
pub struct Docker {
    pub group: bool,
    pub logging: Option<DockerLogging>,
}

#[derive(Clone, Copy, Debug, PartialEq, Eq, Structural)]
pub enum DockerLoggingDriver {
    Local,
}

#[derive(Debug)]
pub struct DockerLogging {
    pub driver: DockerLoggingDriver,
    pub max_size: Option<String>,
}

#[derive(Debug)]
pub struct VirtualBox {
    pub group: bool,
}

#[derive(Debug)]
pub struct Desktop {
    pub theme: Option<Theme>,
    pub linux: Option<LinuxDesktop>,
    pub macos: Option<MacosDesktop>,
}

#[derive(Clone, Copy, Debug, PartialEq, Eq, Structural)]
pub enum Theme {
    Light,
    Dark,
}

#[derive(Debug)]
pub struct LinuxDesktop {
    pub gnome: Option<Gnome>,
}

#[derive(Debug)]
pub struct Idle {
    pub timeout: Option<String>,
    pub dim: Option<bool>,
}

#[derive(Debug)]
pub struct Gnome {
    /// Window titlebar button layout
    pub button_layout: Option<String>,
    pub dash_to_dock: bool,
    pub extensions: Vec<String>,
    pub files: Option<GnomeFiles>,
    pub idle: Option<Idle>,
    pub keyboard: Option<GnomeKeyboard>,
    pub rounded_window_corners: bool,
    pub terminal: Option<String>,
}

/// Whether the GNOME settings ask for anything.
pub open spec fn gnome_intent(g: Gnome) -> bool {
    g.button_layout is Some || g.dash_to_dock || g.extensions@.len() > 0 || g.files is Some
        || g.idle is Some || g.keyboard is Some || g.rounded_window_corners || g.terminal is Some
}

impl Gnome {
    pub fn has_intent(&self) -> (r: bool)
        ensures
            r == gnome_intent(*self),
    {
        self.button_layout.is_some() || self.dash_to_dock || self.extensions.len() > 0
            || self.files.is_some() || self.idle.is_some() || self.keyboard.is_some()
            || self.rounded_window_corners || self.terminal.is_some()
    }
}

pub open spec fn linux_desktop_intent(d: LinuxDesktop) -> bool {
    match d.gnome {
        Some(g) => gnome_intent(g),
        None => false,
    }
}

impl LinuxDesktop {
    /// Whether the Linux desktop settings ask for anything.
    pub fn has_intent(&self) -> (r: bool)
        ensures
            r == linux_desktop_intent(*self),
    {
        match &self.gnome {
            Some(g) => g.has_intent(),
            None => false,
        }
    }
}

#[derive(Debug)]
pub struct GnomeFiles {
    /// Show hidden files in Files & GTK file dialogs
    pub show_hidden_files: Option<bool>,
    /// Keep directories on top when sorting files
    pub sort_folders_first: Option<bool>,
}

#[derive(Debug)]
pub struct GnomeKeyboard {
    /// Delay until repeat in milliseconds
    pub delay: Option<u32>,
    /// Key repeat interval in milliseconds
    pub repeat_interval: Option<u32>,
}

#[derive(Debug)]
pub struct MacosDesktop {
    pub dialogs: Option<Dialogs>,
    pub dock: Option<Dock>,
    pub finder: Option<Finder>,
    pub keyboard: Option<Keyboard>,
    pub screenshots: Option<Screenshots>,
    pub trackpad: Option<Trackpad>,
}

#[derive(Debug)]
pub struct Dialogs {
    /// Expand save panel by default
    pub expand_save_panel: Option<bool>,
    /// Save new documents to iCloud by default rather than disk
    pub save_to_cloud: Option<bool>,
}

#[derive(Debug)]
pub struct Dock {
    /// Automatically hide & show Dock
    pub autohide: Option<bool>,
    /// Automatically rearrange Spaces based on recent use
    pub mru_spaces: Option<bool>,
    /// Show recent applications in Dock
    pub show_recent_applications: Option<bool>,
}

#[derive(Debug)]
pub struct Finder {
    /// Create .DS_Store files on network & USB volumes
    pub ds_store_on_external: Option<bool>,
    /// Default search scope: SCcf = current folder / SCev = this Mac / FXml = previous scope
    pub search_scope: Option<SearchScope>,
    /// Show all filename extensions
    pub show_filename_extensions: Option<bool>,
    /// Show hidden files in Finder
    pub show_hidden_files: Option<bool>,
    /// Show path bar at bottom of Finder windows
    pub show_path_bar: Option<bool>,
    /// Show status bar with item count & available space
    pub show_status_bar: Option<bool>,
    /// Keep folders on top when sorting by name
    pub sort_folders_first: Option<bool>,
    /// Warning prompt before changing file extension
    pub warn_on_extension_change: Option<bool>,
}

#[derive(Clone, Copy, Debug, PartialEq, Eq, Structural)]
pub enum SearchScope {
    SCcf,
    SCev,
    FXml,
}

pub open spec fn search_scope_name(s: SearchScope) -> Seq<char> {
    match s {
        SearchScope::SCcf => "SCcf"@,
        SearchScope::SCev => "SCev"@,
        SearchScope::FXml => "FXml"@,
    }
}

impl SearchScope {
    /// The value that Finder's preference stores for the scope.
    pub fn as_str(self) -> (r: &'static str)
        ensures
            r@ == search_scope_name(self),
    {
        match self {
            SearchScope::SCcf => "SCcf",
            SearchScope::SCev => "SCev",
            SearchScope::FXml => "FXml",
        }
    }
}

#[derive(Debug)]
pub struct Keyboard {
    /// Smart substitutions: quotes, dashes, period, caps & spelling
    pub auto_substitutions: Option<bool>,
    /// Keyboard navigation to move focus between controls with Tab
    pub keyboard_navigation: Option<bool>,
    /// Delay until repeat in ticks (1 tick = 15ms)
    pub initial_key_repeat: Option<i32>,
    /// Key repeat rate in ticks (1 tick = 15ms)
    pub key_repeat: Option<i32>,
    /// Press & hold for accent menu instead of key repeat
    pub press_and_hold: Option<bool>,
}

#[derive(Debug)]
pub struct Screenshots {
    /// Directory where screenshots & screen recordings are saved
    pub location: Option<String>,
}

#[derive(Debug)]
pub struct Trackpad {
    /// Tap trackpad to click
    pub tap_to_click: Option<bool>,
}

/// Whether the macOS desktop settings ask for anything: some group holds a
/// set value (a group of unset values is its default).
pub open spec fn macos_desktop_intent(d: MacosDesktop) -> bool {
    ||| (d.dialogs matches Some(x) && (x.expand_save_panel is Some || x.save_to_cloud is Some))
    ||| (d.dock matches Some(x) && (x.autohide is Some || x.mru_spaces is Some || x.show_recent_applications is Some))
    ||| (d.finder matches Some(x) && (x.ds_store_on_external is Some || x.search_scope is Some
        || x.show_filename_extensions is Some || x.show_hidden_files is Some || x.show_path_bar is Some
        || x.show_status_bar is Some || x.sort_folders_first is Some || x.warn_on_extension_change is Some))
    ||| (d.keyboard matches Some(x) && (x.auto_substitutions is Some || x.keyboard_navigation is Some
        || x.initial_key_repeat is Some || x.key_repeat is Some || x.press_and_hold is Some))
    ||| (d.screenshots matches Some(x) && x.location is Some)
    ||| (d.trackpad matches Some(x) && x.tap_to_click is Some)
}

impl MacosDesktop {
    pub fn has_intent(&self) -> (r: bool)
        ensures
            r == macos_desktop_intent(*self),
    {
        let dialogs = match &self.dialogs {
            Some(x) => x.expand_save_panel.is_some() || x.save_to_cloud.is_some(),
            None => false,
        };
        let dock = match &self.dock {
            Some(x) => x.autohide.is_some() || x.mru_spaces.is_some() || x.show_recent_applications.is_some(),
            None => false,
        };
        let finder = match &self.finder {
            Some(x) => x.ds_store_on_external.is_some() || x.search_scope.is_some()
                || x.show_filename_extensions.is_some() || x.show_hidden_files.is_some()
                || x.show_path_bar.is_some() || x.show_status_bar.is_some()
                || x.sort_folders_first.is_some() || x.warn_on_extension_change.is_some(),
            None => false,
        };
        let keyboard = match &self.keyboard {
            Some(x) => x.auto_substitutions.is_some() || x.keyboard_navigation.is_some()
                || x.initial_key_repeat.is_some() || x.key_repeat.is_some() || x.press_and_hold.is_some(),
            None => false,
        };
        let screenshots = match &self.screenshots {
            Some(x) => x.location.is_some(),
            None => false,
        };
        let trackpad = match &self.trackpad {
            Some(x) => x.tap_to_click.is_some(),
            None => false,
        };
        dialogs || dock || finder || keyboard || screenshots || trackpad
    }
}

#[derive(Debug)]
pub struct Updates {
    pub packages: PackageUpdates,
    pub tools: ToolUpdates,
    pub fonts: bool,
}

#[derive(Debug)]
pub struct PackageUpdates {
    pub linux: LinuxUpdates,
    pub macos: MacosUpdates,
}

#[derive(Debug)]
pub struct LinuxUpdates {
    pub apt: Option<AptUpgrade>,
    pub flatpak: bool,
}

#[derive(Clone, Copy, Debug, PartialEq, Eq, Structural)]
pub enum AptUpgrade {
    Upgrade,
    FullUpgrade,
}

#[derive(Debug)]
pub struct MacosUpdates {
    pub homebrew: HomebrewUpdates,
}

#[derive(Debug)]
pub struct HomebrewUpdates {
    pub formulae: bool,
    pub casks: bool,
}

#[derive(Debug)]
pub struct ToolUpdates {
    pub rust: bool,
    pub node: bool,
    pub python: bool,
    pub go: bool,
    pub cargo: bool,
    pub npm: bool,
}

// ---------------------------------------------------------------- rules

pub const NAME_RULE: &'static str = " must start/end alphanumeric and contain only alphanumerics or `._-`";

/// A definition name at `path`: it must follow the definition grammar.
pub open spec fn name_check(value: Seq<char>, path: Seq<char>) -> Result<(), Seq<char>> {
    if definition_grammar(value) {
        Ok(())
    } else {
        Err(path + ": "@ + debug_text(value) + NAME_RULE@)
    }
}

/// Every name of a sequence at `path`, element by element.
pub open spec fn names_check(values: Seq<Seq<char>>, path: Seq<char>) -> Result<(), Seq<char>> {
    first_error(Seq::new(values.len(), |i: int| name_check(values[i], element_path(path, i))))
}

fn validate_definition_name(value: &str, path: &str) -> (r: Result<(), String>)
    ensures
        same_outcome(r, name_check(value@, path@)),
{
    match regex_match(DEFINITION_NAME_PATTERN, value) {
        Some(true) => Ok(()),
        _ => {
            let quoted = debug_str(value);
            let mut m = concat3(path, ": ", quoted.as_str());
            m.append(NAME_RULE);
            Err(m)
        },
    }
}

fn validate_definition_names(values: &Vec<String>, path: &str) -> (r: Result<(), String>)
    ensures
        same_outcome(r, names_check(string_views(values@), path@)),
{
    let ghost vs = string_views(values@);
    let ghost cs = Seq::new(vs.len(), |i: int| name_check(vs[i], element_path(path@, i)));
    let mut i: usize = 0;
    assert(cs.take(0) =~= Seq::<Result<(), Seq<char>>>::empty());
    while i < values.len()
        invariant
            i <= values@.len(),
            vs == string_views(values@),
            cs == Seq::new(vs.len(), |i: int| name_check(vs[i], element_path(path@, i))),
            first_error(cs.take(i as int)) is Ok,
        decreases values@.len() - i,
    {
        proof {
            lemma_first_error_step(cs, i as int);
        }
        let p = indexed(path, i);
        match validate_definition_name(values[i].as_str(), p.as_str()) {
            Err(e) => {
                proof {
                    lemma_first_error_stop(cs, i + 1);
                }
                return Err(e);
            },
            Ok(_) => {},
        }
        i += 1;
    }
    proof {
        lemma_first_error_whole(cs);
    }
    Ok(())
}

pub open spec fn binary_source_check(source: BinarySource, path: Seq<char>) -> Result<(), Seq<char>> {
    match source {
        BinarySource::GitHub { assets, .. } => if assets@.len() == 0 {
            Err(path + ".assets: must contain at least one canonical architecture asset pattern"@)
        } else {
            Ok(())
        },
        BinarySource::Url { urls } => if urls@.len() == 0 {
            Err(path + ".urls: must contain at least one canonical architecture URL"@)
        } else {
            Ok(())
        },
    }
}

impl BinarySource {
    fn validate(&self, path: &str) -> (r: Result<(), String>)
        ensures
            same_outcome(r, binary_source_check(*self, path@)),
    {
        match self {
            BinarySource::GitHub { assets, .. } => if assets.len() == 0 {
                Err(concat(path, ".assets: must contain at least one canonical architecture asset pattern"))
            } else {
                Ok(())
            },
            BinarySource::Url { urls } => if urls.len() == 0 {
                Err(concat(path, ".urls: must contain at least one canonical architecture URL"))
            } else {
                Ok(())
            },
        }
    }
}

pub open spec fn binary_path(index: int) -> Seq<char> {
    element_path("packages.linux.binaries"@, index)
}

pub open spec fn binary_check(b: BinaryPackage, index: int) -> Result<(), Seq<char>> {
    match name_check(b.name@, binary_path(index) + ".name"@) {
        Err(e) => Err(e),
        Ok(_) => binary_source_check(b.source, binary_path(index) + ".source"@),
    }
}

impl BinaryPackage {
    fn validate(&self, index: usize) -> (r: Result<(), String>)
        ensures
            same_outcome(r, binary_check(*self, index as int)),
    {
        let path = indexed("packages.linux.binaries", index);
        validate_definition_name(self.name.as_str(), concat(path.as_str(), ".name").as_str())?;
        self.source.validate(concat(path.as_str(), ".source").as_str())
    }
}

/// The `index`th binary package: valid, and not named as an earlier one.
pub open spec fn binary_entry_check(bins: Seq<BinaryPackage>, index: int) -> Result<(), Seq<char>> {
    match binary_check(bins[index], index) {
        Err(e) => Err(e),
        Ok(_) => if exists|j: int| 0 <= j < index && #[trigger] bins[j].name@ == bins[index].name@ {
            Err(binary_path(index) + ".name: duplicate binary name "@ + debug_text(bins[index].name@))
        } else {
            Ok(())
        },
    }
}

pub open spec fn linux_packages_check(p: LinuxPackages) -> Result<(), Seq<char>> {
    match (match p.apt {
        Some(a) => apt_packages_check(a),
        None => Ok(()),
    }) {
        Err(e) => Err(e),
        Ok(_) => first_error(Seq::new(p.binaries@.len(), |i: int| binary_entry_check(p.binaries@, i))),
    }
}

/// Whether an earlier element of `names` (before `index`) equals `names[index]`.
fn earlier_equal(names: &Vec<String>, index: usize) -> (r: bool)
    requires
        index < names@.len(),
    ensures
        r == exists|j: int| 0 <= j < index && names@[j]@ == names@[index as int]@,
{
    let target = chars_of(names[index].as_str());
    let mut j: usize = 0;
    while j < index
        invariant
            j <= index < names@.len(),
            target@ == names@[index as int]@,
            forall|k: int| 0 <= k < j ==> names@[k]@ != names@[index as int]@,
        decreases index - j,
    {
        let other = chars_of(names[j].as_str());
        if eq_chars(&other, &target) {
            return true;
        }
        j += 1;
    }
    false
}

impl LinuxPackages {
    /// Checks the Linux package lists: the APT section, then each binary
    /// package, whose names must be unique.
    pub fn validate(&self) -> (r: Result<(), String>)
        ensures
            same_outcome(r, linux_packages_check(*self)),
    {
        if let Some(apt) = &self.apt {
            apt.validate()?;
        }
        let ghost bins = self.binaries@;
        let ghost cs = Seq::new(bins.len(), |i: int| binary_entry_check(bins, i));
        let mut names: Vec<String> = Vec::new();
        let mut i: usize = 0;
        assert(cs.take(0) =~= Seq::<Result<(), Seq<char>>>::empty());
        while i < self.binaries.len()
            invariant
                i <= bins.len(),
                bins == self.binaries@,
                names@.len() == i,
                forall|k: int| 0 <= k < i ==> #[trigger] names@[k]@ == bins[k].name@,
                cs == Seq::new(bins.len(), |i: int| binary_entry_check(bins, i)),
                linux_packages_check(*self) == first_error(cs),
                first_error(cs.take(i as int)) is Ok,
            decreases bins.len() - i,
        {
            proof {
                lemma_first_error_step(cs, i as int);
            }
            let binary = &self.binaries[i];
            if let Err(e) = binary.validate(i) {
                proof {
                    lemma_first_error_stop(cs, i + 1);
                }
                return Err(e);
            }
            names.push(binary.name.clone());
            if earlier_equal(&names, i) {
                proof {
                    assert(exists|j: int| 0 <= j < i && #[trigger] bins[j].name@ == bins[i as int].name@) by {
                        let j = choose|j: int| 0 <= j < i && names@[j]@ == names@[i as int]@;
                        assert(names@[j]@ == bins[j].name@);
                    }
                    lemma_first_error_stop(cs, i + 1);
                }
                let mut m = indexed("packages.linux.binaries", i);
                m.append(".name: duplicate binary name ");
                m.append(debug_str(binary.name.as_str()).as_str());
                return Err(m);
            }
            proof {
                assert(!exists|j: int| 0 <= j < i && #[trigger] bins[j].name@ == bins[i as int].name@) by {
                    if exists|j: int| 0 <= j < i && #[trigger] bins[j].name@ == bins[i as int].name@ {
                        let j = choose|j: int| 0 <= j < i && #[trigger] bins[j].name@ == bins[i as int].name@;
                        assert(names@[j]@ == names@[i as int]@);
                    }
                }
            }
            i += 1;
        }
        proof {
            lemma_first_error_whole(cs);
        }
        Ok(())
    }
}

pub open spec fn repo_path(index: int) -> Seq<char> {
    element_path("packages.linux.apt.repos"@, index)
}

pub const KEY_PARENT_ERROR: &'static str = "APT repo key path has no parent";

pub const KEY_DIRECTORY_ERROR: &'static str = "APT repo key path must be a direct child of /etc/apt/keyrings or /usr/share/keyrings";

pub const KEY_FILENAME_ERROR: &'static str = "APT repo key path has no filename";

pub const KEY_NAME_ERROR: &'static str = "APT repo key path must name a safe .asc or .gpg file";

/// Whether some configured value of the repository holds a control character.
pub open spec fn repo_has_control(r: AptRepoConfig) -> bool {
    (exists|i: int| 0 <= i < r.uris@.len() && has_control(#[trigger] r.uris@[i].1@)) || has_control(r.suite@)
        || (exists|i: int| 0 <= i < r.components@.len() && has_control(#[trigger] r.components@[i]@))
}

/// The rules on one APT repository, in the order they are checked.
pub open spec fn repo_check(r: AptRepoConfig, index: int) -> Result<(), Seq<char>> {
    let path = repo_path(index);
    match name_check(r.name@, path + ".name"@) {
        Err(e) => Err(e),
        Ok(_) => if r.uris@.len() == 0 {
            Err(path + ".uris: must be a non-empty mapping"@)
        } else if has_control(r.key_url@) {
            Err(path + ".key_url: must contain no control characters"@)
        } else {
            match path_parent(r.key_path@) {
                None => Err(KEY_PARENT_ERROR@),
                Some(parent) => if !paths_equal(parent, "/etc/apt/keyrings"@) && !paths_equal(
                    parent,
                    "/usr/share/keyrings"@,
                ) {
                    Err(KEY_DIRECTORY_ERROR@)
                } else {
                    match path_file_name(r.key_path@) {
                        None => Err(KEY_FILENAME_ERROR@),
                        Some(name) => if !key_file_grammar(name) {
                            Err(KEY_NAME_ERROR@)
                        } else {
                            repo_values_check(r, path)
                        },
                    }
                }
            }
        },
    }
}

pub open spec fn repo_values_check(r: AptRepoConfig, path: Seq<char>) -> Result<(), Seq<char>> {
    if r.suite@.len() == 0 {
        Err(path + ".suite: must not be empty"@)
    } else if r.components@.len() == 0 || exists|i: int|
        0 <= i < r.components@.len() && (#[trigger] r.components@[i])@.len() == 0 {
        Err(path + ".components: must contain only non-empty values"@)
    } else if r.arch matches Some(a) && a@.len() == 0 {
        Err(path + ".arch: must not be empty when present"@)
    } else if repo_has_control(r) {
        Err(path + ": source values must fit on one line and contain no control characters"@)
    } else {
        Ok(())
    }
}

fn any_uri_control(uris: &Vec<(DistroKey, String)>) -> (r: bool)
    ensures
        r == exists|i: int| 0 <= i < uris@.len() && has_control(#[trigger] uris@[i].1@),
{
    let mut i: usize = 0;
    while i < uris.len()
        invariant
            i <= uris@.len(),
            forall|k: int| 0 <= k < i ==> !has_control(#[trigger] uris@[k].1@),
        decreases uris@.len() - i,
    {
        if contains_control(uris[i].1.as_str()) {
            return true;
        }
        i += 1;
    }
    false
}

fn any_string_control(values: &Vec<String>) -> (r: bool)
    ensures
        r == exists|i: int| 0 <= i < values@.len() && has_control(#[trigger] values@[i]@),
{
    let mut i: usize = 0;
    while i < values.len()
        invariant
            i <= values@.len(),
            forall|k: int| 0 <= k < i ==> !has_control(#[trigger] values@[k]@),
        decreases values@.len() - i,
    {
        if contains_control(values[i].as_str()) {
            return true;
        }
        i += 1;
    }
    false
}

fn any_empty(values: &Vec<String>) -> (r: bool)
    ensures
        r == exists|i: int| 0 <= i < values@.len() && (#[trigger] values@[i])@.len() == 0,
{
    let mut i: usize = 0;
    while i < values.len()
        invariant
            i <= values@.len(),
            forall|k: int| 0 <= k < i ==> (#[trigger] values@[k])@.len() != 0,
        decreases values@.len() - i,
    {
        if chars_of(values[i].as_str()).len() == 0 {
            return true;
        }
        i += 1;
    }
    false
}

impl AptRepoConfig {
    fn validate(&self, index: usize) -> (r: Result<(), String>)
        ensures
            same_outcome(r, repo_check(*self, index as int)),
    {
        let path = indexed("packages.linux.apt.repos", index);
        validate_definition_name(self.name.as_str(), concat(path.as_str(), ".name").as_str())?;
        if self.uris.len() == 0 {
            return Err(concat(path.as_str(), ".uris: must be a non-empty mapping"));
        }
        if contains_control(self.key_url.as_str()) {
            return Err(concat(path.as_str(), ".key_url: must contain no control characters"));
        }
        let parent = match parent_of(self.key_path.as_str()) {
            None => {
                return Err(KEY_PARENT_ERROR.to_owned());
            },
            Some(p) => p,
        };
        if !same_path(parent.as_str(), "/etc/apt/keyrings") && !same_path(parent.as_str(), "/usr/share/keyrings") {
            return Err(KEY_DIRECTORY_ERROR.to_owned());
        }
        let name = match file_name_of(self.key_path.as_str()) {
            None => {
                return Err(KEY_FILENAME_ERROR.to_owned());
            },
            Some(n) => n,
        };
        if regex_match(KEY_FILE_PATTERN, name.as_str()) != Some(true) {
            return Err(KEY_NAME_ERROR.to_owned());
        }
        if chars_of(self.suite.as_str()).len() == 0 {
            return Err(concat(path.as_str(), ".suite: must not be empty"));
        }
        if self.components.len() == 0 || any_empty(&self.components) {
            return Err(concat(path.as_str(), ".components: must contain only non-empty values"));
        }
        if let Some(a) = &self.arch {
            if a.len() == 0 {
                return Err(concat(path.as_str(), ".arch: must not be empty when present"));
            }
        }
        if any_uri_control(&self.uris) || contains_control(self.suite.as_str()) || any_string_control(
            &self.components,
        ) {
            return Err(concat(path.as_str(), ": source values must fit on one line and contain no control characters"));
        }
        Ok(())
    }
}

/// The `index`th repository: valid, with a name and a key destination that
/// no earlier repository has.
pub open spec fn repo_entry_check(repos: Seq<AptRepoConfig>, index: int) -> Result<(), Seq<char>> {
    match repo_check(repos[index], index) {
        Err(e) => Err(e),
        Ok(_) => if exists|j: int| 0 <= j < index && #[trigger] repos[j].name@ == repos[index].name@ {
            Err(repo_path(index) + ".name: duplicate repo name "@ + debug_text(repos[index].name@))
        } else if exists|j: int| 0 <= j < index && #[trigger] repos[j].key_path@ == repos[index].key_path@ {
            Err(repo_path(index) + ".key_path: destination "@ + debug_text(repos[index].key_path@)
                + " collides with an earlier repo"@)
        } else {
            Ok(())
        },
    }
}

pub open spec fn apt_packages_check(a: AptPackages) -> Result<(), Seq<char>> {
    first_error(Seq::new(a.repos@.len(), |i: int| repo_entry_check(a.repos@, i)))
}

impl AptPackages {
    fn validate(&self) -> (r: Result<(), String>)
        ensures
            same_outcome(r, apt_packages_check(*self)),
    {
        let ghost repos = self.repos@;
        let ghost cs = Seq::new(repos.len(), |i: int| repo_entry_check(repos, i));
        let mut names: Vec<String> = Vec::new();
        let mut keys: Vec<String> = Vec::new();
        let mut i: usize = 0;
        assert(cs.take(0) =~= Seq::<Result<(), Seq<char>>>::empty());
        while i < self.repos.len()
            invariant
                i <= repos.len(),
                repos == self.repos@,
                names@.len() == i,
                keys@.len() == i,
                forall|k: int| 0 <= k < i ==> #[trigger] names@[k]@ == repos[k].name@,
                forall|k: int| 0 <= k < i ==> #[trigger] keys@[k]@ == repos[k].key_path@,
                cs == Seq::new(repos.len(), |i: int| repo_entry_check(repos, i)),
                first_error(cs.take(i as int)) is Ok,
            decreases repos.len() - i,
        {
            proof {
                lemma_first_error_step(cs, i as int);
            }
            let repo = &self.repos[i];
            if let Err(e) = repo.validate(i) {
                proof {
                    lemma_first_error_stop(cs, i + 1);
                }
                return Err(e);
            }
            names.push(repo.name.clone());
            keys.push(repo.key_path.clone());
            let dup_name = earlier_equal(&names, i);
            proof {
                if dup_name {
                    let j = choose|j: int| 0 <= j < i && names@[j]@ == names@[i as int]@;
                    assert(repos[j].name@ == repos[i as int].name@);
                } else {
                    assert forall|j: int| 0 <= j < i implies #[trigger] repos[j].name@ != repos[i as int].name@ by {
                        assert(names@[j]@ == repos[j].name@);
                    }
                }
            }
            if dup_name {
                proof {
                    lemma_first_error_stop(cs, i + 1);
                }
                let mut m = indexed("packages.linux.apt.repos", i);
                m.append(".name: duplicate repo name ");
                m.append(debug_str(repo.name.as_str()).as_str());
                return Err(m);
            }
            let dup_key = earlier_equal(&keys, i);
            proof {
                if dup_key {
                    let j = choose|j: int| 0 <= j < i && keys@[j]@ == keys@[i as int]@;
                    assert(repos[j].key_path@ == repos[i as int].key_path@);
                } else {
                    assert forall|j: int| 0 <= j < i implies #[trigger] repos[j].key_path@ != repos[i as int].key_path@ by {
                        assert(keys@[j]@ == repos[j].key_path@);
                    }
                }
            }
            if dup_key {
                proof {
                    lemma_first_error_stop(cs, i + 1);
                }
                let mut m = indexed("packages.linux.apt.repos", i);
                m.append(".key_path: destination ");
                m.append(debug_str(repo.key_path.as_str()).as_str());
                m.append(" collides with an earlier repo");
                return Err(m);
            }
            i += 1;
        }
        proof {
            lemma_first_error_whole(cs);
        }
        Ok(())
    }
}

/// The second check where the first passes.
pub open spec fn then_check(a: Result<(), Seq<char>>, b: Result<(), Seq<char>>) -> Result<(), Seq<char>> {
    match a {
        Err(e) => Err(e),
        Ok(_) => b,
    }
}

pub const TERMINAL_RULE: &'static str = " must start alphanumeric and contain only alphanumerics or `._+-`";

pub const TIMEOUT_PATH: &'static str = "desktop.linux.gnome.idle.timeout";

/// The idle timeout: a `humantime` duration of whole seconds that fits in 32
/// bits. A text with a sub-second part whose items could add up to 10^19
/// seconds or more (neither `duration_in_reach` nor `subsecond_free` holds)
/// is refused as out of range without being parsed: its duration, where
/// `humantime` reads one, is far beyond 32 bits.
pub open spec fn timeout_check(t: Seq<char>) -> Result<(), Seq<char>> {
    if !duration_in_reach(t) && !subsecond_free(t) {
        Err(TIMEOUT_PATH@ + ": exceeds uint32 range"@)
    } else {
        match humantime_duration(t) {
            None => Err(TIMEOUT_PATH@),
            Some((secs, nanos)) => if nanos != 0 {
                Err(TIMEOUT_PATH@ + ": must resolve to whole seconds"@)
            } else if secs > u32::MAX {
                Err(TIMEOUT_PATH@ + ": exceeds uint32 range"@)
            } else {
                Ok(())
            },
        }
    }
}

pub open spec fn linux_desktop_check(d: LinuxDesktop) -> Result<(), Seq<char>> {
    let terminal = match d.gnome {
        Some(g) => match g.terminal {
            Some(t) => if terminal_grammar(t@) {
                Ok(())
            } else {
                Err("desktop.linux.gnome.terminal: "@ + debug_text(t@) + TERMINAL_RULE@)
            },
            None => Ok(()),
        },
        None => Ok(()),
    };
    let timeout = match d.gnome {
        Some(g) => match g.idle {
            Some(i) => match i.timeout {
                Some(t) => timeout_check(t@),
                None => Ok(()),
            },
            None => Ok(()),
        },
        None => Ok(()),
    };
    then_check(terminal, timeout)
}

impl LinuxDesktop {
    /// Checks the GNOME terminal name and the idle timeout.
    pub fn validate(&self) -> (r: Result<(), String>)
        ensures
            same_outcome(r, linux_desktop_check(*self)),
    {
        if let Some(g) = &self.gnome {
            if let Some(t) = &g.terminal {
                if regex_match(TERMINAL_PATTERN, t.as_str()) != Some(true) {
                    let quoted = debug_str(t.as_str());
                    let mut m = concat("desktop.linux.gnome.terminal: ", quoted.as_str());
                    m.append(TERMINAL_RULE);
                    return Err(m);
                }
            }
            if let Some(i) = &g.idle {
                if let Some(t) = &i.timeout {
                    if !whole_seconds_only(t.as_str()) && !duration_reach(t.as_str()) {
                        return Err(concat(TIMEOUT_PATH, ": exceeds uint32 range"));
                    }
                    match parse_duration(t.as_str()) {
                        None => {
                            return Err(TIMEOUT_PATH.to_owned());
                        },
                        Some((secs, nanos)) => {
                            if nanos != 0 {
                                return Err(concat(TIMEOUT_PATH, ": must resolve to whole seconds"));
                            }
                            if secs > 0xffff_ffff {
                                return Err(concat(TIMEOUT_PATH, ": exceeds uint32 range"));
                            }
                        },
                    }
                }
            }
        }
        Ok(())
    }
}

pub open spec fn dotfiles_check(d: Dotfiles) -> Result<(), Seq<char>> {
    then_check(
        names_check(string_views(d.packages.all@), "dotfiles.packages.all"@),
        then_check(
            names_check(string_views(d.packages.linux@), "dotfiles.packages.linux"@),
            names_check(string_views(d.packages.macos@), "dotfiles.packages.macos"@),
        ),
    )
}

impl Dotfiles {
    fn validate(&self) -> (r: Result<(), String>)
        ensures
            same_outcome(r, dotfiles_check(*self)),
    {
        validate_definition_names(&self.packages.all, "dotfiles.packages.all")?;
        validate_definition_names(&self.packages.linux, "dotfiles.packages.linux")?;
        validate_definition_names(&self.packages.macos, "dotfiles.packages.macos")
    }
}

pub const GO_RULE: &'static str = "tools.go: expected `latest` or an exact version such as `1.24.6`";

/// The Go version: `latest`, or a semantic version without pre-release or build metadata.
pub open spec fn go_check(go: Option<String>) -> Result<(), Seq<char>> {
    match go {
        None => Ok(()),
        Some(g) => if g@ == "latest"@ || (semver_parse(g@) matches Some((pre, build)) && pre.len() == 0
            && build.len() == 0) {
            Ok(())
        } else {
            Err(GO_RULE@)
        },
    }
}

/// The rules that a configuration must satisfy on any platform, in the
/// order they are checked.
pub open spec fn config_check(c: Config) -> Result<(), Seq<char>> {
    then_check(
        linux_packages_check(c.packages.linux),
        then_check(
            go_check(c.tools.go),
            then_check(
                if c.tools.cargo@.len() > 0 && c.tools.rust is None {
                    Err("tools.cargo: requires tools.rust"@)
                } else {
                    Ok(())
                },
                then_check(
                    if c.tools.npm@.len() > 0 && c.tools.node is None {
                        Err("tools.npm: requires tools.node"@)
                    } else {
                        Ok(())
                    },
                    then_check(
                        names_check(string_views(c.fonts.nerd@), "fonts.nerd"@),
                        then_check(
                            dotfiles_check(c.dotfiles),
                            match c.desktop {
                                Some(d) => match d.linux {
                                    Some(l) => linux_desktop_check(l),
                                    None => Ok(()),
                                },
                                None => Ok(()),
                            },
                        ),
                    ),
                ),
            ),
        ),
    )
}

/// Whether the configuration asks for GNOME settings.
pub open spec fn gnome_requested(c: Config) -> bool {
    match c.desktop {
        Some(d) => d.theme is Some || match d.linux {
            Some(l) => linux_desktop_intent(l),
            None => false,
        },
        None => false,
    }
}

/// The rules that depend on the platform: on Linux, theme and GNOME
/// settings require the GNOME desktop.
pub open spec fn platform_check(c: Config, p: Platform) -> Result<(), Seq<char>> {
    match p.identity {
        PlatformIdentity::Macos => Ok(()),
        PlatformIdentity::Linux { .. } => if p.desktop != DesktopKind::Gnome && gnome_requested(c) {
            Err("desktop.theme and desktop.linux.gnome settings require GNOME; detected "@ + debug_text(
                desktop_name(p.desktop),
            ))
        } else {
            Ok(())
        },
    }
}

impl Config {
    /// Checks the rules that every configuration must satisfy.
    pub fn validate(&self) -> (r: Result<(), String>)
        ensures
            same_outcome(r, config_check(*self)),
    {
        self.packages.linux.validate()?;
        if let Some(go) = &self.tools.go {
            let g = chars_of(go.as_str());
            let ok = eq_str(&g, "latest") || match parse_semver(go.as_str()) {
                Some((pre, build)) => chars_of(pre.as_str()).len() == 0 && chars_of(build.as_str()).len() == 0,
                None => false,
            };
            if !ok {
                return Err(GO_RULE.to_owned());
            }
        }
        if self.tools.cargo.len() > 0 && self.tools.rust.is_none() {
            return Err("tools.cargo: requires tools.rust".to_owned());
        }
        if self.tools.npm.len() > 0 && self.tools.node.is_none() {
            return Err("tools.npm: requires tools.node".to_owned());
        }
        validate_definition_names(&self.fonts.nerd, "fonts.nerd")?;
        self.dotfiles.validate()?;
        if let Some(d) = &self.desktop {
            if let Some(l) = &d.linux {
                l.validate()?;
            }
        }
        Ok(())
    }

    /// Checks the rules that depend on the detected platform.
    pub fn validate_for_platform(&self, platform: &Platform) -> (r: Result<(), String>)
        ensures
            same_outcome(r, platform_check(*self, *platform)),
    {
        match platform.identity {
            PlatformIdentity::Macos => Ok(()),
            PlatformIdentity::Linux { .. } => {
                let requested = match &self.desktop {
                    Some(d) => d.theme.is_some() || match &d.linux {
                        Some(l) => l.has_intent(),
                        None => false,
                    },
                    None => false,
                };
                if platform.desktop != DesktopKind::Gnome && requested {
                    let quoted = debug_str(platform.desktop.as_str());
                    Err(concat("desktop.theme and desktop.linux.gnome settings require GNOME; detected ", quoted.as_str()))
                } else {
                    Ok(())
                }
            },
        }
    }
}

/// Whether the GNOME settings set anything: a button layout, Dash to Dock,
/// extensions, Files, idle, keyboard, rounded corners or a terminal.
pub open spec fn gnome_setting_given(g: Gnome) -> bool {
    ||| g.button_layout is Some
    ||| g.dash_to_dock
    ||| g.extensions@.len() > 0
    ||| g.files is Some
    ||| g.idle is Some
    ||| g.keyboard is Some
    ||| g.rounded_window_corners
    ||| g.terminal is Some
}

/// On Linux, a theme or any GNOME setting requires the GNOME desktop: the
/// platform check fails, naming the detected desktop, exactly where the
/// desktop is not GNOME and the configuration gives a theme or sets one of
/// the GNOME settings; on macOS it always passes.
pub proof fn lemma_gnome_settings_require_gnome(c: Config, p: Platform)
    ensures
        (platform_check(c, p) is Err) <==> (p.identity is Linux && p.desktop != DesktopKind::Gnome && (c.desktop matches Some(d)
            && (d.theme is Some || (d.linux matches Some(l) && l.gnome matches Some(g) && gnome_setting_given(g))))),
        platform_check(c, p) is Err ==> platform_check(c, p) == Err::<(), Seq<char>>(
            "desktop.theme and desktop.linux.gnome settings require GNOME; detected "@ + debug_text(desktop_name(p.desktop)),
        ),
{
}

/// On macOS no repository URI is chosen.
pub proof fn lemma_distro_uri_macos(uris: Seq<(DistroKey, Seq<char>)>)
    ensures
        selected_uri(uris, PlatformIdentity::Macos) is None,
{
}

/// The first entry of `uris` with `key` gives its URI.
proof fn lemma_uri_for_first(uris: Seq<(DistroKey, Seq<char>)>, key: DistroKey, i: int)
    requires
        0 <= i < uris.len(),
        uris[i].0 == key,
        forall|j: int| 0 <= j < i ==> uris[j].0 != key,
    ensures
        uri_for(uris, key) == Some(uris[i].1),
    decreases i,
{
    if i > 0 {
        assert(uris[0].0 != key);
        assert forall|j: int| 0 <= j < i - 1 implies uris.drop_first()[j].0 != key by {
            assert(uris.drop_first()[j] == uris[j + 1]);
        }
        lemma_uri_for_first(uris.drop_first(), key, i - 1);
    }
}

/// Without an entry for `key`, there is no URI for it.
proof fn lemma_uri_for_absent(uris: Seq<(DistroKey, Seq<char>)>, key: DistroKey)
    requires
        forall|j: int| 0 <= j < uris.len() ==> uris[j].0 != key,
    ensures
        uri_for(uris, key) is None,
    decreases uris.len(),
{
    if uris.len() > 0 {
        assert forall|j: int| 0 <= j < uris.len() - 1 implies uris.drop_first()[j].0 != key by {
            assert(uris.drop_first()[j] == uris[j + 1]);
        }
        lemma_uri_for_absent(uris.drop_first(), key);
    }
}

/// A distribution's own entry wins: where `uris[i]` is the first entry for
/// the exact distribution, its key and URI are chosen.
pub proof fn lemma_distro_uri_exact(uris: Seq<(DistroKey, Seq<char>)>, distro: Distro, family: Family, i: int)
    requires
        0 <= i < uris.len(),
        uris[i].0 == key_of_distro(distro),
        forall|j: int| 0 <= j < i ==> uris[j].0 != key_of_distro(distro),
    ensures
        selected_uri(uris, PlatformIdentity::Linux { distro, family }) == Some((key_of_distro(distro), uris[i].1)),
{
    lemma_uri_for_first(uris, key_of_distro(distro), i);
}

/// Without an entry for the exact distribution, the family's entry is
/// chosen: where `uris[i]` is the first entry for the family, its key and
/// URI.
pub proof fn lemma_distro_uri_family(uris: Seq<(DistroKey, Seq<char>)>, distro: Distro, family: Family, i: int)
    requires
        0 <= i < uris.len(),
        uris[i].0 == key_of_family(family),
        forall|j: int| 0 <= j < i ==> uris[j].0 != key_of_family(family),
        forall|j: int| 0 <= j < uris.len() ==> uris[j].0 != key_of_distro(distro),
    ensures
        selected_uri(uris, PlatformIdentity::Linux { distro, family }) == Some((key_of_family(family), uris[i].1)),
{
    lemma_uri_for_absent(uris, key_of_distro(distro));
    lemma_uri_for_first(uris, key_of_family(family), i);
}

/// Without an entry for the distribution or its family, the default entry
/// is chosen, and without one of those either, none.
pub proof fn lemma_distro_uri_default(uris: Seq<(DistroKey, Seq<char>)>, distro: Distro, family: Family)
    requires
        forall|j: int| 0 <= j < uris.len() ==> uris[j].0 != key_of_distro(distro) && uris[j].0 != key_of_family(family),
    ensures
        forall|i: int| 0 <= i < uris.len() && uris[i].0 == DistroKey::Default && (forall|j: int| 0 <= j < i ==> uris[j].0 != DistroKey::Default)
            ==> selected_uri(uris, PlatformIdentity::Linux { distro, family }) == Some((DistroKey::Default, #[trigger] uris[i].1)),
        (forall|j: int| 0 <= j < uris.len() ==> uris[j].0 != DistroKey::Default) ==> selected_uri(
            uris,
            PlatformIdentity::Linux { distro, family },
        ) is None,
{
    lemma_uri_for_absent(uris, key_of_distro(distro));
    lemma_uri_for_absent(uris, key_of_family(family));
    assert forall|i: int| 0 <= i < uris.len() && uris[i].0 == DistroKey::Default && (forall|j: int| 0 <= j < i ==> uris[j].0 != DistroKey::Default)
        implies selected_uri(uris, PlatformIdentity::Linux { distro, family }) == Some((DistroKey::Default, #[trigger] uris[i].1)) by {
        lemma_uri_for_first(uris, DistroKey::Default, i);
    }
    if forall|j: int| 0 <= j < uris.len() ==> uris[j].0 != DistroKey::Default {
        lemma_uri_for_absent(uris, DistroKey::Default);
    }
}

} // verus!
