//! The version 1.0.0 configuration model: its data, and the rules that a
//! configuration must satisfy in general and on the detected platform.
//!
//! Reading the YAML text into these types is the caller's work; every rule
//! on the values read stands here, and the checks on the text itself that
//! come before it stand in `preflight`.
pub mod rules;
pub mod preflight;

use vstd::prelude::*;
use crate::domain::HttpsUrl;
use crate::platform::{managed_apt_sources, managed_sources_valid, Architecture, canonical_name};
use crate::text::{
    chars_of, concat, concat3, debug_str, debug_text, element_path, eq_str, first_error, indexed,
    lemma_first_error_step, lemma_first_error_stop, lemma_first_error_whole, same_outcome,
    string_views, is_alnum, to_lower_char, alnum, lower_char, push_char,
};
use self::rules::{
    then, effective_check, require_effective, true_only_check, true_only, unique_check,
    first_repeat, first_repeat_by, ValueRule, string_list_check, string_values_check,
    validate_string_list, validate_string_values, EMPTY_SEQUENCE, EMPTY_MAPPING, DUPLICATE_VALUE,
    apt_token_check, validate_apt_token, suite_check, validate_suite, definition_name_check,
    validate_definition_name, repository_path_check, validate_repository_path,
    github_repository_check, validate_github_repository, wildcard_check, validate_wildcard,
    sha256_check, validate_sha256, executable_check, validate_executable, rust_selector_check,
    validate_rust_selector, numeric_version_check, validate_numeric_version, duration_check,
    validate_duration, docker_size_check, validate_docker_size,
};

pub use crate::platform::{DesktopKind, Family};

verus! {

/// The configuration format version; only 1.0.0 exists.
#[derive(Clone, Copy, Debug, PartialEq, Eq, Structural)]
pub struct ConfigVersion;

pub const VERSION_TEXT: &'static str = "1.0.0";

pub open spec fn version_check(value: Seq<char>) -> Result<ConfigVersion, Seq<char>> {
    if value == VERSION_TEXT@ {
        Ok(ConfigVersion)
    } else {
        Err("unsupported configuration version "@ + debug_text(value) + "; only version \"1.0.0\" is supported"@)
    }
}

impl ConfigVersion {
    /// Reads the configured version text; only "1.0.0" is accepted.
    pub fn parse(value: &str) -> (r: Result<ConfigVersion, String>)
        ensures
            match r {
                Ok(v) => version_check(value@) == Ok::<ConfigVersion, Seq<char>>(v),
                Err(e) => version_check(value@) == Err::<ConfigVersion, Seq<char>>(e@),
            },
    {
        let v = chars_of(value);
        if eq_str(&v, VERSION_TEXT) {
            Ok(ConfigVersion)
        } else {
            let quoted = debug_str(value);
            Err(concat3("unsupported configuration version ", quoted.as_str(), "; only version \"1.0.0\" is supported"))
        }
    }
}

/// A whole configuration.
#[derive(Debug)]
pub struct Config {
    pub version: ConfigVersion,
    pub system: Option<System>,
    pub packages: Option<Packages>,
    pub tools: Option<Tools>,
    pub fonts: Option<Fonts>,
    pub dotfiles: Option<Dotfiles>,
    pub integrations: Option<Integrations>,
    pub desktop: Option<Desktop>,
    pub updates: Option<Updates>,
}

/// A distribution that a configuration can name.
#[derive(Clone, Copy, Debug, PartialEq, Eq, Structural)]
pub enum Distro {
    Ubuntu,
    Linuxmint,
    Pop,
    Zorin,
    Deepin,
    Debian,
    Kali,
    Tails,
}

pub open spec fn distro_named(value: Seq<char>) -> Option<Distro> {
    if value == "ubuntu"@ {
        Some(Distro::Ubuntu)
    } else if value == "linuxmint"@ {
        Some(Distro::Linuxmint)
    } else if value == "pop"@ {
        Some(Distro::Pop)
    } else if value == "zorin"@ {
        Some(Distro::Zorin)
    } else if value == "deepin"@ {
        Some(Distro::Deepin)
    } else if value == "debian"@ {
        Some(Distro::Debian)
    } else if value == "kali"@ {
        Some(Distro::Kali)
    } else if value == "tails"@ {
        Some(Distro::Tails)
    } else {
        None
    }
}

/// The name that `Debug` writes for a distribution.
pub open spec fn distro_debug(d: Distro) -> Seq<char> {
    match d {
        Distro::Ubuntu => "Ubuntu"@,
        Distro::Linuxmint => "Linuxmint"@,
        Distro::Pop => "Pop"@,
        Distro::Zorin => "Zorin"@,
        Distro::Deepin => "Deepin"@,
        Distro::Debian => "Debian"@,
        Distro::Kali => "Kali"@,
        Distro::Tails => "Tails"@,
    }
}

fn distro_debug_name(d: Distro) -> (r: &'static str)
    ensures
        r@ == distro_debug(d),
{
    match d {
        Distro::Ubuntu => "Ubuntu",
        Distro::Linuxmint => "Linuxmint",
        Distro::Pop => "Pop",
        Distro::Zorin => "Zorin",
        Distro::Deepin => "Deepin",
        Distro::Debian => "Debian",
        Distro::Kali => "Kali",
        Distro::Tails => "Tails",
    }
}

/// The name that `Debug` writes for a desktop.
pub open spec fn desktop_debug(d: DesktopKind) -> Seq<char> {
    match d {
        DesktopKind::Headless => "None"@,
        DesktopKind::Gnome => "Gnome"@,
        DesktopKind::Cinnamon => "Cinnamon"@,
    }
}

fn desktop_debug_name(d: DesktopKind) -> (r: &'static str)
    ensures
        r@ == desktop_debug(d),
{
    match d {
        DesktopKind::Headless => "None",
        DesktopKind::Gnome => "Gnome",
        DesktopKind::Cinnamon => "Cinnamon",
    }
}

/// The detected host as this model reads it: the reported distribution,
/// upstream family and desktop names, the architecture, and the release
/// codenames of the distribution and of its upstream base.
#[derive(Debug)]
pub struct DetectedPlatform {
    pub distro: String,
    pub upstream: String,
    pub desktop: String,
    pub architecture: Architecture,
    pub distro_codename: String,
    pub base_codename: String,
}

pub const DISTROS_PATH: &'static str = "system.require.distros";

/// The distribution and family of the host, where both are known and agree.
pub open spec fn platform_identity(p: DetectedPlatform) -> Result<(Distro, Family), Seq<char>> {
    match distro_named(p.distro@) {
        None => Err(DISTROS_PATH@ + ": unsupported detected distribution "@ + debug_text(p.distro@)),
        Some(distro) => {
            if p.upstream@ != "ubuntu"@ && p.upstream@ != "debian"@ {
                Err(DISTROS_PATH@ + ": unsupported platform upstream family "@ + debug_text(p.upstream@))
            } else {
                let upstream = if p.upstream@ == "ubuntu"@ { Family::Ubuntu } else { Family::Debian };
                let valid = match distro {
                    Distro::Ubuntu | Distro::Pop | Distro::Zorin => upstream == Family::Ubuntu,
                    Distro::Debian | Distro::Kali | Distro::Tails | Distro::Deepin => upstream == Family::Debian,
                    Distro::Linuxmint => true,
                };
                if valid {
                    Ok((distro, upstream))
                } else {
                    Err(DISTROS_PATH@ + ": detected distribution "@ + debug_text(p.distro@)
                        + " is inconsistent with upstream family "@ + debug_text(p.upstream@))
                }
            }
        },
    }
}

fn parse_distro(value: &str) -> (r: Option<Distro>)
    ensures
        r == distro_named(value@),
{
    let v = chars_of(value);
    if eq_str(&v, "ubuntu") {
        Some(Distro::Ubuntu)
    } else if eq_str(&v, "linuxmint") {
        Some(Distro::Linuxmint)
    } else if eq_str(&v, "pop") {
        Some(Distro::Pop)
    } else if eq_str(&v, "zorin") {
        Some(Distro::Zorin)
    } else if eq_str(&v, "deepin") {
        Some(Distro::Deepin)
    } else if eq_str(&v, "debian") {
        Some(Distro::Debian)
    } else if eq_str(&v, "kali") {
        Some(Distro::Kali)
    } else if eq_str(&v, "tails") {
        Some(Distro::Tails)
    } else {
        None
    }
}

pub fn validate_platform_identity(platform: &DetectedPlatform) -> (r: Result<(Distro, Family), String>)
    ensures
        match r {
            Ok(x) => platform_identity(*platform) == Ok::<(Distro, Family), Seq<char>>(x),
            Err(e) => platform_identity(*platform) == Err::<(Distro, Family), Seq<char>>(e@),
        },
{
    let distro = match parse_distro(platform.distro.as_str()) {
        Some(d) => d,
        None => {
            let quoted = debug_str(platform.distro.as_str());
            return Err(concat3(DISTROS_PATH, ": unsupported detected distribution ", quoted.as_str()));
        },
    };
    let up = chars_of(platform.upstream.as_str());
    let upstream = if eq_str(&up, "ubuntu") {
        Family::Ubuntu
    } else if eq_str(&up, "debian") {
        Family::Debian
    } else {
        let quoted = debug_str(platform.upstream.as_str());
        return Err(concat3(DISTROS_PATH, ": unsupported platform upstream family ", quoted.as_str()));
    };
    let valid = match distro {
        Distro::Ubuntu | Distro::Pop | Distro::Zorin => upstream == Family::Ubuntu,
        Distro::Debian | Distro::Kali | Distro::Tails | Distro::Deepin => upstream == Family::Debian,
        Distro::Linuxmint => true,
    };
    if !valid {
        let d = debug_str(platform.distro.as_str());
        let u = debug_str(platform.upstream.as_str());
        let mut m = concat3(DISTROS_PATH, ": detected distribution ", d.as_str());
        m.append(" is inconsistent with upstream family ");
        m.append(u.as_str());
        return Err(m);
    }
    Ok((distro, upstream))
}

/// The desktop that the host reports, by name.
pub open spec fn desktop_named(value: Seq<char>) -> Result<DesktopKind, Seq<char>> {
    if value == "none"@ {
        Ok(DesktopKind::Headless)
    } else if value == "gnome"@ {
        Ok(DesktopKind::Gnome)
    } else if value == "cinnamon"@ {
        Ok(DesktopKind::Cinnamon)
    } else {
        Err("system.require.desktops: unsupported detected desktop "@ + debug_text(value))
    }
}

pub fn desktop_from_platform(value: &str) -> (r: Result<DesktopKind, String>)
    ensures
        match r {
            Ok(d) => desktop_named(value@) == Ok::<DesktopKind, Seq<char>>(d),
            Err(e) => desktop_named(value@) == Err::<DesktopKind, Seq<char>>(e@),
        },
{
    let v = chars_of(value);
    if eq_str(&v, "none") {
        Ok(DesktopKind::Headless)
    } else if eq_str(&v, "gnome") {
        Ok(DesktopKind::Gnome)
    } else if eq_str(&v, "cinnamon") {
        Ok(DesktopKind::Cinnamon)
    } else {
        let quoted = debug_str(value);
        Err(concat("system.require.desktops: unsupported detected desktop ", quoted.as_str()))
    }
}


// ------------------------------------------------------------ system

#[derive(Debug)]
pub struct System {
    pub require: Option<PlatformRequirements>,
    pub ensure_admin: Option<bool>,
    pub apt: Option<SystemApt>,
    pub ubuntu: Option<UbuntuSystem>,
}

pub open spec fn system_check(s: System) -> Result<(), Seq<char>> {
    then(effective_check(s.require is Some || s.ensure_admin is Some || s.apt is Some || s.ubuntu is Some, "system"@),
    then(match s.require { Some(r) => requirements_check(r), None => Ok(()) },
    then(true_only_check(s.ensure_admin, "system.ensure_admin"@),
    then(match s.apt { Some(a) => system_apt_check(a), None => Ok(()) },
    match s.ubuntu { Some(u) => ubuntu_check(u), None => Ok(()) }))))
}

impl System {
    pub fn validate(&self) -> (r: Result<(), String>)
        ensures
            same_outcome(r, system_check(*self)),
    {
        require_effective(
            self.require.is_some() || self.ensure_admin.is_some() || self.apt.is_some() || self.ubuntu.is_some(),
            "system",
        )?;
        if let Some(require) = &self.require {
            require.validate()?;
        }
        true_only(self.ensure_admin, "system.ensure_admin")?;
        if let Some(apt) = &self.apt {
            apt.validate()?;
        }
        if let Some(ubuntu) = &self.ubuntu {
            ubuntu.validate()?;
        }
        Ok(())
    }
}

/// The platforms that a configuration is meant for.
#[derive(Debug)]
pub struct PlatformRequirements {
    pub distros: Option<Vec<Distro>>,
    pub desktops: Option<Vec<DesktopKind>>,
}

pub open spec fn requirements_check(r: PlatformRequirements) -> Result<(), Seq<char>> {
    then(effective_check(r.distros is Some || r.desktops is Some, "system.require"@),
    then(match r.distros { Some(d) => unique_check(d@, |x: Distro| distro_debug(x), DISTROS_PATH@), None => Ok(()) },
    match r.desktops { Some(d) => unique_check(d@, |x: DesktopKind| desktop_debug(x), "system.require.desktops"@), None => Ok(()) }))
}

/// The error of a present sequence that is empty or repeats a value.
fn unique_error(len: usize, repeat: Option<usize>, name: &str, path: &str) -> (r: Option<String>)
    ensures
        len == 0 ==> r is Some && r->0@ == path@ + EMPTY_SEQUENCE@,
        len > 0 ==> match repeat {
            Some(i) => r is Some && r->0@ == element_path(path@, i as int) + DUPLICATE_VALUE@ + name@,
            None => r is None,
        },
{
    if len == 0 {
        Some(concat(path, EMPTY_SEQUENCE))
    } else {
        match repeat {
            Some(i) => {
                let item = indexed(path, i);
                Some(concat3(item.as_str(), DUPLICATE_VALUE, name))
            },
            None => None,
        }
    }
}

fn validate_distros(values: &Vec<Distro>, path: &str) -> (r: Result<(), String>)
    ensures
        same_outcome(r, unique_check(values@, |x: Distro| distro_debug(x), path@)),
{
    let same = |a: Distro, b: Distro| -> (e: bool) ensures e == (a == b) { a == b };
    let repeat = first_repeat_by(values, same);
    let name = match repeat {
        Some(i) => distro_debug_name(values[i]),
        None => "",
    };
    match unique_error(values.len(), repeat, name, path) {
        Some(e) => Err(e),
        None => Ok(()),
    }
}

fn validate_desktops(values: &Vec<DesktopKind>, path: &str) -> (r: Result<(), String>)
    ensures
        same_outcome(r, unique_check(values@, |x: DesktopKind| desktop_debug(x), path@)),
{
    let same = |a: DesktopKind, b: DesktopKind| -> (e: bool) ensures e == (a == b) { a == b };
    let repeat = first_repeat_by(values, same);
    let name = match repeat {
        Some(i) => desktop_debug_name(values[i]),
        None => "",
    };
    match unique_error(values.len(), repeat, name, path) {
        Some(e) => Err(e),
        None => Ok(()),
    }
}

impl PlatformRequirements {
    pub fn validate(&self) -> (r: Result<(), String>)
        ensures
            same_outcome(r, requirements_check(*self)),
    {
        require_effective(self.distros.is_some() || self.desktops.is_some(), "system.require")?;
        if let Some(d) = &self.distros {
            validate_distros(d, DISTROS_PATH)?;
        }
        if let Some(d) = &self.desktops {
            validate_desktops(d, "system.require.desktops")?;
        }
        Ok(())
    }
}

#[derive(Debug)]
pub struct SystemApt {
    pub sources: Option<OfficialSources>,
    pub unattended_upgrades: Option<EnabledDisabled>,
}

pub open spec fn system_apt_check(a: SystemApt) -> Result<(), Seq<char>> {
    then(effective_check(a.sources is Some || a.unattended_upgrades is Some, "system.apt"@),
    match a.sources { Some(s) => sources_check(s), None => Ok(()) })
}

impl SystemApt {
    pub fn validate(&self) -> (r: Result<(), String>)
        ensures
            same_outcome(r, system_apt_check(*self)),
    {
        require_effective(self.sources.is_some() || self.unattended_upgrades.is_some(), "system.apt")?;
        if let Some(sources) = &self.sources {
            sources.validate()?;
        }
        Ok(())
    }
}

/// Whether the distribution's own APT sources are kept or managed.
#[derive(Clone, Copy, Debug, PartialEq, Eq, Structural)]
pub enum SourceMode {
    Preserve,
    Managed,
}

/// The official APT sources: kept as they are, or managed with the
/// components configured per distribution key (a mapping: each key once,
/// visited in the keys' order).
#[derive(Debug)]
pub struct OfficialSources {
    pub mode: SourceMode,
    pub components: Option<Vec<(DistroMapKey, Vec<AptComponent>)>>,
}

pub const COMPONENTS_PATH: &'static str = "system.apt.sources.components";

/// The components configured under the `i`th key, checked where present.
pub open spec fn components_entry_check(m: Seq<(DistroMapKey, Vec<AptComponent>)>, i: int) -> Result<(), Seq<char>> {
    let key = map_key_at(i);
    match entry_index(m, key, 0) {
        Some(j) => unique_check(m[j].1@, |x: AptComponent| component_debug(x), COMPONENTS_PATH@ + "."@ + key_name(key)),
        None => Ok(()),
    }
}

pub open spec fn sources_check(s: OfficialSources) -> Result<(), Seq<char>> {
    match (s.mode, s.components) {
        (SourceMode::Managed, Some(c)) => if c@.len() == 0 {
            Err(COMPONENTS_PATH@ + EMPTY_MAPPING@)
        } else {
            first_error(Seq::new(MAP_KEY_COUNT as nat, |i: int| components_entry_check(c@, i)))
        },
        (SourceMode::Managed, None) => Err(COMPONENTS_PATH@ + ": required when mode is managed"@),
        (SourceMode::Preserve, Some(_)) => Err(COMPONENTS_PATH@ + ": forbidden when mode is preserve"@),
        (SourceMode::Preserve, None) => Ok(()),
    }
}

fn validate_components(values: &Vec<AptComponent>, path: &str) -> (r: Result<(), String>)
    ensures
        same_outcome(r, unique_check(values@, |x: AptComponent| component_debug(x), path@)),
{
    let same = |a: AptComponent, b: AptComponent| -> (e: bool) ensures e == (a == b) { a == b };
    let repeat = first_repeat_by(values, same);
    let name = match repeat {
        Some(i) => component_debug_name(values[i]),
        None => "",
    };
    match unique_error(values.len(), repeat, name, path) {
        Some(e) => Err(e),
        None => Ok(()),
    }
}

fn validate_component_map(components: &Vec<(DistroMapKey, Vec<AptComponent>)>) -> (r: Result<(), String>)
    ensures
        same_outcome(r, first_error(Seq::new(MAP_KEY_COUNT as nat, |i: int| components_entry_check(components@, i)))),
{
    let ghost m = components@;
    let ghost cs = Seq::new(MAP_KEY_COUNT as nat, |i: int| components_entry_check(m, i));
    let mut i: usize = 0;
    assert(cs.take(0) =~= Seq::<Result<(), Seq<char>>>::empty());
    while i < MAP_KEY_COUNT
        invariant
            i <= MAP_KEY_COUNT,
            m == components@,
            cs == Seq::new(MAP_KEY_COUNT as nat, |i: int| components_entry_check(m, i)),
            first_error(cs.take(i as int)) is Ok,
        decreases MAP_KEY_COUNT - i,
    {
        proof {
            lemma_first_error_step(cs, i as int);
        }
        let key = DistroMapKey::at(i);
        assert(cs[i as int] == components_entry_check(m, i as int));
        if let Some(j) = find_entry(components, key) {
            let path = concat3(COMPONENTS_PATH, ".", key.as_str());
            if let Err(e) = validate_components(&components[j].1, path.as_str()) {
                proof {
                    lemma_first_error_stop(cs, i + 1);
                }
                return Err(e);
            }
        }
        i += 1;
    }
    proof {
        lemma_first_error_whole(cs);
    }
    Ok(())
}

impl OfficialSources {
    pub fn validate(&self) -> (r: Result<(), String>)
        ensures
            same_outcome(r, sources_check(*self)),
    {
        match (&self.mode, &self.components) {
            (SourceMode::Managed, Some(components)) => {
                if components.len() == 0 {
                    return Err(concat(COMPONENTS_PATH, EMPTY_MAPPING));
                }
                validate_component_map(components)
            },
            (SourceMode::Managed, None) => Err(concat(COMPONENTS_PATH, ": required when mode is managed")),
            (SourceMode::Preserve, Some(_)) => Err(concat(COMPONENTS_PATH, ": forbidden when mode is preserve")),
            (SourceMode::Preserve, None) => Ok(()),
        }
    }
}

/// An APT archive component.
#[derive(Clone, Copy, Debug, PartialEq, Eq, Structural)]
pub enum AptComponent {
    Main,
    Restricted,
    Universe,
    Multiverse,
    Contrib,
    NonFree,
    NonFreeFirmware,
}

pub open spec fn component_name(c: AptComponent) -> Seq<char> {
    match c {
        AptComponent::Main => "main"@,
        AptComponent::Restricted => "restricted"@,
        AptComponent::Universe => "universe"@,
        AptComponent::Multiverse => "multiverse"@,
        AptComponent::Contrib => "contrib"@,
        AptComponent::NonFree => "non-free"@,
        AptComponent::NonFreeFirmware => "non-free-firmware"@,
    }
}

/// The name that `Debug` writes for a component.
pub open spec fn component_debug(c: AptComponent) -> Seq<char> {
    match c {
        AptComponent::Main => "Main"@,
        AptComponent::Restricted => "Restricted"@,
        AptComponent::Universe => "Universe"@,
        AptComponent::Multiverse => "Multiverse"@,
        AptComponent::Contrib => "Contrib"@,
        AptComponent::NonFree => "NonFree"@,
        AptComponent::NonFreeFirmware => "NonFreeFirmware"@,
    }
}

fn component_debug_name(c: AptComponent) -> (r: &'static str)
    ensures
        r@ == component_debug(c),
{
    match c {
        AptComponent::Main => "Main",
        AptComponent::Restricted => "Restricted",
        AptComponent::Universe => "Universe",
        AptComponent::Multiverse => "Multiverse",
        AptComponent::Contrib => "Contrib",
        AptComponent::NonFree => "NonFree",
        AptComponent::NonFreeFirmware => "NonFreeFirmware",
    }
}

impl AptComponent {
    /// The component as APT names it.
    pub fn as_str(&self) -> (r: &'static str)
        ensures
            r@ == component_name(*self),
    {
        match self {
            AptComponent::Main => "main",
            AptComponent::Restricted => "restricted",
            AptComponent::Universe => "universe",
            AptComponent::Multiverse => "multiverse",
            AptComponent::Contrib => "contrib",
            AptComponent::NonFree => "non-free",
            AptComponent::NonFreeFirmware => "non-free-firmware",
        }
    }
}

#[derive(Clone, Copy, Debug, PartialEq, Eq, Structural)]
pub enum EnabledDisabled {
    Enabled,
    Disabled,
}

#[derive(Clone, Copy, Debug, PartialEq, Eq, Structural)]
pub enum InstalledState {
    Installed,
}

#[derive(Debug)]
pub struct UbuntuSystem {
    pub snap: Option<EnabledDisabled>,
    pub codecs: Option<InstalledState>,
}

pub open spec fn ubuntu_check(u: UbuntuSystem) -> Result<(), Seq<char>> {
    effective_check(u.snap is Some || u.codecs is Some, "system.ubuntu"@)
}

impl UbuntuSystem {
    pub fn validate(&self) -> (r: Result<(), String>)
        ensures
            same_outcome(r, ubuntu_check(*self)),
    {
        require_effective(self.snap.is_some() || self.codecs.is_some(), "system.ubuntu")
    }
}

// ------------------------------------------------------------ distribution maps

/// A key of a per-distribution mapping: a distribution, or the default.
#[derive(Clone, Copy, Debug, PartialEq, Eq, Structural)]
pub enum DistroMapKey {
    Default,
    Ubuntu,
    Linuxmint,
    Pop,
    Zorin,
    Deepin,
    Debian,
    Kali,
    Tails,
}

pub const MAP_KEY_COUNT: usize = 9;

/// The keys in their order, which a mapping's entries are visited in.
pub open spec fn map_key_at(i: int) -> DistroMapKey {
    if i <= 0 {
        DistroMapKey::Default
    } else if i == 1 {
        DistroMapKey::Ubuntu
    } else if i == 2 {
        DistroMapKey::Linuxmint
    } else if i == 3 {
        DistroMapKey::Pop
    } else if i == 4 {
        DistroMapKey::Zorin
    } else if i == 5 {
        DistroMapKey::Deepin
    } else if i == 6 {
        DistroMapKey::Debian
    } else if i == 7 {
        DistroMapKey::Kali
    } else {
        DistroMapKey::Tails
    }
}

pub open spec fn key_name(k: DistroMapKey) -> Seq<char> {
    match k {
        DistroMapKey::Default => "default"@,
        DistroMapKey::Ubuntu => "ubuntu"@,
        DistroMapKey::Linuxmint => "linuxmint"@,
        DistroMapKey::Pop => "pop"@,
        DistroMapKey::Zorin => "zorin"@,
        DistroMapKey::Deepin => "deepin"@,
        DistroMapKey::Debian => "debian"@,
        DistroMapKey::Kali => "kali"@,
        DistroMapKey::Tails => "tails"@,
    }
}

pub open spec fn key_of_distro(d: Distro) -> DistroMapKey {
    match d {
        Distro::Ubuntu => DistroMapKey::Ubuntu,
        Distro::Linuxmint => DistroMapKey::Linuxmint,
        Distro::Pop => DistroMapKey::Pop,
        Distro::Zorin => DistroMapKey::Zorin,
        Distro::Deepin => DistroMapKey::Deepin,
        Distro::Debian => DistroMapKey::Debian,
        Distro::Kali => DistroMapKey::Kali,
        Distro::Tails => DistroMapKey::Tails,
    }
}

pub open spec fn key_of_family(f: Family) -> DistroMapKey {
    match f {
        Family::Ubuntu => DistroMapKey::Ubuntu,
        Family::Debian => DistroMapKey::Debian,
    }
}

impl DistroMapKey {
    /// The key as a configuration writes it.
    pub fn as_str(self) -> (r: &'static str)
        ensures
            r@ == key_name(self),
    {
        match self {
            DistroMapKey::Default => "default",
            DistroMapKey::Ubuntu => "ubuntu",
            DistroMapKey::Linuxmint => "linuxmint",
            DistroMapKey::Pop => "pop",
            DistroMapKey::Zorin => "zorin",
            DistroMapKey::Deepin => "deepin",
            DistroMapKey::Debian => "debian",
            DistroMapKey::Kali => "kali",
            DistroMapKey::Tails => "tails",
        }
    }

    /// The key at position `i` of the keys' order.
    pub fn at(i: usize) -> (r: Self)
        ensures
            r == map_key_at(i as int),
    {
        if i == 0 {
            DistroMapKey::Default
        } else if i == 1 {
            DistroMapKey::Ubuntu
        } else if i == 2 {
            DistroMapKey::Linuxmint
        } else if i == 3 {
            DistroMapKey::Pop
        } else if i == 4 {
            DistroMapKey::Zorin
        } else if i == 5 {
            DistroMapKey::Deepin
        } else if i == 6 {
            DistroMapKey::Debian
        } else if i == 7 {
            DistroMapKey::Kali
        } else {
            DistroMapKey::Tails
        }
    }

    /// The key of the distribution itself.
    pub fn from_distro(distro: Distro) -> (r: Self)
        ensures
            r == key_of_distro(distro),
    {
        match distro {
            Distro::Ubuntu => DistroMapKey::Ubuntu,
            Distro::Linuxmint => DistroMapKey::Linuxmint,
            Distro::Pop => DistroMapKey::Pop,
            Distro::Zorin => DistroMapKey::Zorin,
            Distro::Deepin => DistroMapKey::Deepin,
            Distro::Debian => DistroMapKey::Debian,
            Distro::Kali => DistroMapKey::Kali,
            Distro::Tails => DistroMapKey::Tails,
        }
    }

    /// The key of the upstream family.
    pub fn from_family(family: Family) -> (r: Self)
        ensures
            r == key_of_family(family),
    {
        match family {
            Family::Ubuntu => DistroMapKey::Ubuntu,
            Family::Debian => DistroMapKey::Debian,
        }
    }
}

/// The position of the entry for `key`, looking from `from` on.
pub open spec fn entry_index<T>(m: Seq<(DistroMapKey, T)>, key: DistroMapKey, from: int) -> Option<int>
    decreases m.len() - from,
{
    if from < 0 || from >= m.len() {
        None
    } else if m[from].0 == key {
        Some(from)
    } else {
        entry_index(m, key, from + 1)
    }
}

pub fn find_entry<T>(m: &Vec<(DistroMapKey, T)>, key: DistroMapKey) -> (r: Option<usize>)
    ensures
        match r {
            Some(i) => entry_index(m@, key, 0) == Some(i as int) && i < m@.len(),
            None => entry_index(m@, key, 0) is None,
        },
{
    let mut i: usize = 0;
    while i < m.len()
        invariant
            i <= m@.len(),
            entry_index(m@, key, 0) == entry_index(m@, key, i as int),
        decreases m@.len() - i,
    {
        if m[i].0 == key {
            return Some(i);
        }
        i += 1;
    }
    None
}

/// The entry that applies on the host: the distribution's own, else its
/// family's, else the default; with the key it was found under.
pub open spec fn selected_entry<T>(m: Seq<(DistroMapKey, T)>, distro: Distro, upstream: Family) -> Option<(DistroMapKey, int)> {
    let exact = key_of_distro(distro);
    let family = key_of_family(upstream);
    if entry_index(m, exact, 0) is Some {
        Some((exact, entry_index(m, exact, 0)->0))
    } else if entry_index(m, family, 0) is Some {
        Some((family, entry_index(m, family, 0)->0))
    } else if entry_index(m, DistroMapKey::Default, 0) is Some {
        Some((DistroMapKey::Default, entry_index(m, DistroMapKey::Default, 0)->0))
    } else {
        None
    }
}

pub fn select_distro_map<T>(m: &Vec<(DistroMapKey, T)>, distro: Distro, upstream: Family) -> (r: Option<(DistroMapKey, usize)>)
    ensures
        match r {
            Some((k, i)) => selected_entry(m@, distro, upstream) == Some((k, i as int)) && i < m@.len(),
            None => selected_entry(m@, distro, upstream) is None,
        },
{
    let exact = DistroMapKey::from_distro(distro);
    let family = DistroMapKey::from_family(upstream);
    if let Some(i) = find_entry(m, exact) {
        return Some((exact, i));
    }
    if let Some(i) = find_entry(m, family) {
        return Some((family, i));
    }
    if let Some(i) = find_entry(m, DistroMapKey::Default) {
        return Some((DistroMapKey::Default, i));
    }
    None
}


// ------------------------------------------------------------ packages

#[derive(Debug)]
pub struct Packages {
    pub apt: Option<AptPackages>,
    pub flatpak: Option<Vec<String>>,
    pub cargo: Option<Vec<String>>,
    pub npm: Option<Vec<String>>,
    pub binaries: Option<Vec<BinaryPackage>>,
}

pub open spec fn packages_check(p: Packages) -> Result<(), Seq<char>> {
    then(effective_check(p.apt is Some || p.flatpak is Some || p.cargo is Some || p.npm is Some || p.binaries is Some, "packages"@),
    then(match p.apt { Some(a) => apt_packages_check(a), None => Ok(()) },
    then(string_list_check(p.flatpak, "packages.flatpak"@, ValueRule::FlatpakId),
    then(string_list_check(p.cargo, "packages.cargo"@, ValueRule::CargoPackage),
    then(string_list_check(p.npm, "packages.npm"@, ValueRule::NpmPackage),
    match p.binaries { Some(b) => binaries_check(b@), None => Ok(()) })))))
}

impl Packages {
    pub fn validate(&self) -> (r: Result<(), String>)
        ensures
            same_outcome(r, packages_check(*self)),
    {
        require_effective(
            self.apt.is_some() || self.flatpak.is_some() || self.cargo.is_some() || self.npm.is_some()
                || self.binaries.is_some(),
            "packages",
        )?;
        if let Some(apt) = &self.apt {
            apt.validate()?;
        }
        validate_string_list(&self.flatpak, "packages.flatpak", ValueRule::FlatpakId)?;
        validate_string_list(&self.cargo, "packages.cargo", ValueRule::CargoPackage)?;
        validate_string_list(&self.npm, "packages.npm", ValueRule::NpmPackage)?;
        if let Some(binaries) = &self.binaries {
            validate_binaries(binaries)?;
        }
        Ok(())
    }
}

pub open spec fn binary_path(i: int) -> Seq<char> {
    element_path("packages.binaries"@, i)
}

pub open spec fn command_path(i: int, j: int) -> Seq<char> {
    element_path(binary_path(i) + ".commands"@, j)
}

/// The position of `cmd` among the strings, looking from `from` on.
pub open spec fn position_of(cs: Seq<Seq<char>>, cmd: Seq<char>, from: int) -> Option<int>
    decreases cs.len() - from,
{
    if from < 0 || from >= cs.len() {
        None
    } else if cs[from] == cmd {
        Some(from)
    } else {
        position_of(cs, cmd, from + 1)
    }
}

/// The earliest command of the binaries from `k` up to (not including)
/// `i` that is `cmd`: the claim that an earlier binary holds on it.
pub open spec fn first_claim(bins: Seq<BinaryPackage>, i: int, cmd: Seq<char>, k: int) -> Option<(int, int)>
    decreases i - k,
{
    if k < 0 || k >= i {
        None
    } else {
        match position_of(string_views(bins[k].commands@), cmd, 0) {
            Some(l) => Some((k, l)),
            None => first_claim(bins, i, cmd, k + 1),
        }
    }
}

pub open spec fn claim_check(bins: Seq<BinaryPackage>, i: int, j: int) -> Result<(), Seq<char>> {
    let cmd = bins[i].commands@[j]@;
    match first_claim(bins, i, cmd, 0) {
        Some((k, l)) => Err(command_path(i, j) + ": command "@ + debug_text(cmd) + " is already claimed by "@
            + command_path(k, l)),
        None => Ok(()),
    }
}

/// The `i`th binary: valid, named unlike every earlier one, and claiming
/// no command that an earlier one claims.
pub open spec fn binary_entry_check(bins: Seq<BinaryPackage>, i: int) -> Result<(), Seq<char>> {
    then(binary_check(bins[i], i),
    then(if exists|j: int| 0 <= j < i && #[trigger] bins[j].name@ == bins[i].name@ {
        Err(binary_path(i) + ".name: duplicate binary name "@ + debug_text(bins[i].name@))
    } else {
        Ok(())
    },
    first_error(Seq::new(bins[i].commands@.len(), |j: int| claim_check(bins, i, j)))))
}

pub open spec fn binaries_check(bins: Seq<BinaryPackage>) -> Result<(), Seq<char>> {
    if bins.len() == 0 {
        Err("packages.binaries"@ + EMPTY_SEQUENCE@)
    } else {
        first_error(Seq::new(bins.len(), |i: int| binary_entry_check(bins, i)))
    }
}

fn find_command(commands: &Vec<String>, cmd: &Vec<char>) -> (r: Option<usize>)
    ensures
        match r {
            Some(l) => position_of(string_views(commands@), cmd@, 0) == Some(l as int),
            None => position_of(string_views(commands@), cmd@, 0) is None,
        },
{
    let ghost cs = string_views(commands@);
    let mut l: usize = 0;
    while l < commands.len()
        invariant
            l <= commands@.len(),
            cs == string_views(commands@),
            position_of(cs, cmd@, 0) == position_of(cs, cmd@, l as int),
        decreases commands@.len() - l,
    {
        let other = chars_of(commands[l].as_str());
        if crate::text::eq_chars(&other, cmd) {
            return Some(l);
        }
        l += 1;
    }
    None
}

fn find_claim(bins: &Vec<BinaryPackage>, i: usize, cmd: &Vec<char>) -> (r: Option<(usize, usize)>)
    requires
        i <= bins@.len(),
    ensures
        match r {
            Some((k, l)) => first_claim(bins@, i as int, cmd@, 0) == Some((k as int, l as int)),
            None => first_claim(bins@, i as int, cmd@, 0) is None,
        },
{
    let mut k: usize = 0;
    while k < i
        invariant
            k <= i <= bins@.len(),
            first_claim(bins@, i as int, cmd@, 0) == first_claim(bins@, i as int, cmd@, k as int),
        decreases i - k,
    {
        if let Some(l) = find_command(&bins[k].commands, cmd) {
            return Some((k, l));
        }
        k += 1;
    }
    None
}

fn earlier_binary_named(bins: &Vec<BinaryPackage>, i: usize) -> (r: bool)
    requires
        i < bins@.len(),
    ensures
        r == exists|j: int| 0 <= j < i && #[trigger] bins@[j].name@ == bins@[i as int].name@,
{
    let target = chars_of(bins[i].name.as_str());
    let mut j: usize = 0;
    while j < i
        invariant
            j <= i < bins@.len(),
            target@ == bins@[i as int].name@,
            forall|k: int| 0 <= k < j ==> #[trigger] bins@[k].name@ != bins@[i as int].name@,
        decreases i - j,
    {
        let other = chars_of(bins[j].name.as_str());
        if crate::text::eq_chars(&other, &target) {
            return true;
        }
        j += 1;
    }
    false
}

fn validate_claims(bins: &Vec<BinaryPackage>, i: usize) -> (r: Result<(), String>)
    requires
        i < bins@.len(),
    ensures
        same_outcome(r, first_error(Seq::new(bins@[i as int].commands@.len(), |j: int| claim_check(bins@, i as int, j)))),
{
    let ghost cs = Seq::new(bins@[i as int].commands@.len(), |j: int| claim_check(bins@, i as int, j));
    let commands = &bins[i].commands;
    let mut j: usize = 0;
    assert(cs.take(0) =~= Seq::<Result<(), Seq<char>>>::empty());
    while j < commands.len()
        invariant
            i < bins@.len(),
            commands@ == bins@[i as int].commands@,
            j <= commands@.len(),
            cs == Seq::new(bins@[i as int].commands@.len(), |j: int| claim_check(bins@, i as int, j)),
            first_error(cs.take(j as int)) is Ok,
        decreases commands@.len() - j,
    {
        proof {
            lemma_first_error_step(cs, j as int);
        }
        let cmd = chars_of(commands[j].as_str());
        if let Some((k, l)) = find_claim(bins, i, &cmd) {
            proof {
                lemma_first_error_stop(cs, j + 1);
            }
            let here = indexed(concat(indexed("packages.binaries", i).as_str(), ".commands").as_str(), j);
            let owner = indexed(concat(indexed("packages.binaries", k).as_str(), ".commands").as_str(), l);
            let quoted = debug_str(commands[j].as_str());
            let mut m = concat3(here.as_str(), ": command ", quoted.as_str());
            m.append(" is already claimed by ");
            m.append(owner.as_str());
            return Err(m);
        }
        j += 1;
    }
    proof {
        lemma_first_error_whole(cs);
    }
    Ok(())
}

fn validate_binaries(bins: &Vec<BinaryPackage>) -> (r: Result<(), String>)
    ensures
        same_outcome(r, binaries_check(bins@)),
{
    if bins.len() == 0 {
        return Err(concat("packages.binaries", EMPTY_SEQUENCE));
    }
    let ghost cs = Seq::new(bins@.len(), |i: int| binary_entry_check(bins@, i));
    let mut i: usize = 0;
    assert(cs.take(0) =~= Seq::<Result<(), Seq<char>>>::empty());
    while i < bins.len()
        invariant
            i <= bins@.len(),
            bins@.len() > 0,
            cs == Seq::new(bins@.len(), |i: int| binary_entry_check(bins@, i)),
            first_error(cs.take(i as int)) is Ok,
        decreases bins@.len() - i,
    {
        proof {
            lemma_first_error_step(cs, i as int);
        }
        let outcome = validate_binary_entry(bins, i);
        if let Err(e) = outcome {
            proof {
                lemma_first_error_stop(cs, i + 1);
            }
            return Err(e);
        }
        i += 1;
    }
    proof {
        lemma_first_error_whole(cs);
    }
    Ok(())
}

fn validate_binary_entry(bins: &Vec<BinaryPackage>, i: usize) -> (r: Result<(), String>)
    requires
        i < bins@.len(),
    ensures
        same_outcome(r, binary_entry_check(bins@, i as int)),
{
    bins[i].validate(i)?;
    if earlier_binary_named(bins, i) {
        let path = indexed("packages.binaries", i);
        let quoted = debug_str(bins[i].name.as_str());
        return Err(concat3(path.as_str(), ".name: duplicate binary name ", quoted.as_str()));
    }
    validate_claims(bins, i)
}

#[derive(Debug)]
pub struct AptPackages {
    pub remove: Option<Vec<String>>,
    pub install: Option<Vec<String>>,
    pub repositories: Option<Vec<Repository>>,
}

pub open spec fn repository_path(i: int) -> Seq<char> {
    element_path("packages.apt.repositories"@, i)
}

/// The texts of an optional list of strings; none where it is absent.
pub open spec fn opt_views(o: Option<Vec<String>>) -> Seq<Seq<char>> {
    match o {
        Some(v) => string_views(v@),
        None => Seq::empty(),
    }
}

pub open spec fn install_views(a: AptPackages) -> Seq<Seq<char>> {
    opt_views(a.install)
}

/// Whether a package is installed by the install list or by one of the
/// first `i` repositories.
pub open spec fn owned_before(rs: Seq<Repository>, inst: Seq<Seq<char>>, i: int, p: Seq<char>) -> bool {
    inst.contains(p) || exists|k: int, l: int| 0 <= k < i && 0 <= l < rs[k].packages@.len() && #[trigger] rs[k].packages@[l]@ == p
}

pub open spec fn ownership_check(rs: Seq<Repository>, inst: Seq<Seq<char>>, i: int, l: int) -> Result<(), Seq<char>> {
    let p = rs[i].packages@[l]@;
    if owned_before(rs, inst, i, p) {
        Err(element_path(repository_path(i) + ".packages"@, l) + ": duplicate APT installation ownership for "@ + debug_text(p))
    } else {
        Ok(())
    }
}

/// The `i`th repository: valid, unlike every earlier one in name and in
/// file name stem, and installing no package that is already installed.
pub open spec fn repository_entry_check(rs: Seq<Repository>, inst: Seq<Seq<char>>, i: int) -> Result<(), Seq<char>> {
    let stem = filename_stem_of(rs[i].name@);
    then(repository_check(rs[i], i),
    then(if exists|j: int| 0 <= j < i && #[trigger] rs[j].name@ == rs[i].name@ {
        Err(repository_path(i) + ".name: duplicate repository name "@ + debug_text(rs[i].name@))
    } else {
        Ok(())
    },
    then(if exists|j: int| 0 <= j < i && #[trigger] filename_stem_of(rs[j].name@) == stem {
        Err(repository_path(i) + ".name: filename stem "@ + debug_text(stem) + " collides with an earlier repository"@)
    } else {
        Ok(())
    },
    first_error(Seq::new(rs[i].packages@.len(), |l: int| ownership_check(rs, inst, i, l))))))
}

pub open spec fn repositories_check(rs: Seq<Repository>, inst: Seq<Seq<char>>) -> Result<(), Seq<char>> {
    if rs.len() == 0 {
        Err("packages.apt.repositories"@ + EMPTY_SEQUENCE@)
    } else {
        first_error(Seq::new(rs.len(), |i: int| repository_entry_check(rs, inst, i)))
    }
}

pub open spec fn all_repositories(a: AptPackages) -> Seq<Repository> {
    match a.repositories {
        Some(v) => v@,
        None => Seq::empty(),
    }
}

/// No package to remove is also installed.
pub open spec fn removal_check(a: AptPackages, i: int) -> Result<(), Seq<char>> {
    let rm = string_views(a.remove->0@);
    let rs = all_repositories(a);
    if owned_before(rs, install_views(a), rs.len() as int, rm[i]) {
        Err(element_path("packages.apt.remove"@, i) + ": package "@ + debug_text(rm[i]) + " is also configured for installation"@)
    } else {
        Ok(())
    }
}

pub open spec fn apt_packages_check(a: AptPackages) -> Result<(), Seq<char>> {
    then(effective_check(a.remove is Some || a.install is Some || a.repositories is Some, "packages.apt"@),
    then(string_list_check(a.remove, "packages.apt.remove"@, ValueRule::DebianPackage),
    then(string_list_check(a.install, "packages.apt.install"@, ValueRule::DebianPackage),
    then(match a.repositories { Some(rs) => repositories_check(rs@, install_views(a)), None => Ok(()) },
    match a.remove {
        Some(rm) => first_error(Seq::new(rm@.len(), |i: int| removal_check(a, i))),
        None => Ok(()),
    }))))
}

fn list_has(values: &Option<Vec<String>>, p: &Vec<char>) -> (r: bool)
    ensures
        r == opt_views(*values).contains(p@),
{
    match values {
        None => false,
        Some(v) => {
            let ghost vs = string_views(v@);
            let mut j: usize = 0;
            while j < v.len()
                invariant
                    j <= v@.len(),
                    vs == string_views(v@),
                    vs == opt_views(*values),
                    forall|k: int| 0 <= k < j ==> vs[k] != p@,
                decreases v@.len() - j,
            {
                let other = chars_of(v[j].as_str());
                if crate::text::eq_chars(&other, p) {
                    assert(vs[j as int] == p@);
                    return true;
                }
                j += 1;
            }
            false
        },
    }
}

fn owned_by(install: &Option<Vec<String>>, rs: &Vec<Repository>, i: usize, p: &Vec<char>) -> (r: bool)
    requires
        i <= rs@.len(),
    ensures
        r == owned_before(rs@, opt_views(*install), i as int, p@),
{
    if list_has(install, p) {
        return true;
    }
    let mut k: usize = 0;
    while k < i
        invariant
            k <= i <= rs@.len(),
            forall|a: int, b: int| 0 <= a < k && 0 <= b < rs@[a].packages@.len() ==> #[trigger] rs@[a].packages@[b]@ != p@,
        decreases i - k,
    {
        let pkgs = &rs[k].packages;
        let mut l: usize = 0;
        while l < pkgs.len()
            invariant
                k < i <= rs@.len(),
                pkgs@ == rs@[k as int].packages@,
                l <= pkgs@.len(),
                forall|b: int| 0 <= b < l ==> #[trigger] pkgs@[b]@ != p@,
            decreases pkgs@.len() - l,
        {
            let other = chars_of(pkgs[l].as_str());
            if crate::text::eq_chars(&other, p) {
                return true;
            }
            l += 1;
        }
        k += 1;
    }
    false
}

fn earlier_repository_named(rs: &Vec<Repository>, i: usize) -> (r: bool)
    requires
        i < rs@.len(),
    ensures
        r == exists|j: int| 0 <= j < i && #[trigger] rs@[j].name@ == rs@[i as int].name@,
{
    let target = chars_of(rs[i].name.as_str());
    let mut j: usize = 0;
    while j < i
        invariant
            j <= i < rs@.len(),
            target@ == rs@[i as int].name@,
            forall|k: int| 0 <= k < j ==> #[trigger] rs@[k].name@ != rs@[i as int].name@,
        decreases i - j,
    {
        let other = chars_of(rs[j].name.as_str());
        if crate::text::eq_chars(&other, &target) {
            return true;
        }
        j += 1;
    }
    false
}

fn earlier_stem(rs: &Vec<Repository>, i: usize, stem: &String) -> (r: bool)
    requires
        i < rs@.len(),
        stem@ == filename_stem_of(rs@[i as int].name@),
    ensures
        r == exists|j: int| 0 <= j < i && #[trigger] filename_stem_of(rs@[j].name@) == filename_stem_of(rs@[i as int].name@),
{
    let target = chars_of(stem.as_str());
    let mut j: usize = 0;
    while j < i
        invariant
            j <= i < rs@.len(),
            target@ == filename_stem_of(rs@[i as int].name@),
            forall|k: int| 0 <= k < j ==> #[trigger] filename_stem_of(rs@[k].name@) != filename_stem_of(rs@[i as int].name@),
        decreases i - j,
    {
        let other_stem = rs[j].filename_stem();
        let other = chars_of(other_stem.as_str());
        if crate::text::eq_chars(&other, &target) {
            return true;
        }
        j += 1;
    }
    false
}

fn validate_ownership(install: &Option<Vec<String>>, rs: &Vec<Repository>, i: usize) -> (r: Result<(), String>)
    requires
        i < rs@.len(),
    ensures
        same_outcome(r, first_error(Seq::new(rs@[i as int].packages@.len(), |l: int|
            ownership_check(rs@, opt_views(*install), i as int, l)))),
{
    let ghost inst = opt_views(*install);
    let ghost cs = Seq::new(rs@[i as int].packages@.len(), |l: int| ownership_check(rs@, inst, i as int, l));
    let pkgs = &rs[i].packages;
    let mut l: usize = 0;
    assert(cs.take(0) =~= Seq::<Result<(), Seq<char>>>::empty());
    while l < pkgs.len()
        invariant
            i < rs@.len(),
            pkgs@ == rs@[i as int].packages@,
            inst == (opt_views(*install)),
            l <= pkgs@.len(),
            cs == Seq::new(rs@[i as int].packages@.len(), |l: int| ownership_check(rs@, inst, i as int, l)),
            first_error(cs.take(l as int)) is Ok,
        decreases pkgs@.len() - l,
    {
        proof {
            lemma_first_error_step(cs, l as int);
        }
        let p = chars_of(pkgs[l].as_str());
        if owned_by(install, rs, i, &p) {
            proof {
                lemma_first_error_stop(cs, l + 1);
            }
            let path = indexed(concat(indexed("packages.apt.repositories", i).as_str(), ".packages").as_str(), l);
            let quoted = debug_str(pkgs[l].as_str());
            return Err(concat3(path.as_str(), ": duplicate APT installation ownership for ", quoted.as_str()));
        }
        l += 1;
    }
    proof {
        lemma_first_error_whole(cs);
    }
    Ok(())
}

fn validate_repository_entry(install: &Option<Vec<String>>, rs: &Vec<Repository>, i: usize) -> (r: Result<(), String>)
    requires
        i < rs@.len(),
    ensures
        same_outcome(r, repository_entry_check(rs@, opt_views(*install), i as int)),
{
    rs[i].validate(i)?;
    if earlier_repository_named(rs, i) {
        let path = indexed("packages.apt.repositories", i);
        let quoted = debug_str(rs[i].name.as_str());
        return Err(concat3(path.as_str(), ".name: duplicate repository name ", quoted.as_str()));
    }
    let stem = rs[i].filename_stem();
    if earlier_stem(rs, i, &stem) {
        let path = indexed("packages.apt.repositories", i);
        let quoted = debug_str(stem.as_str());
        let mut m = concat3(path.as_str(), ".name: filename stem ", quoted.as_str());
        m.append(" collides with an earlier repository");
        return Err(m);
    }
    validate_ownership(install, rs, i)
}

fn validate_repository_list(install: &Option<Vec<String>>, rs: &Vec<Repository>) -> (r: Result<(), String>)
    ensures
        same_outcome(r, repositories_check(rs@, opt_views(*install))),
{
    let ghost inst = opt_views(*install);
    if rs.len() == 0 {
        return Err(concat("packages.apt.repositories", EMPTY_SEQUENCE));
    }
    let ghost cs = Seq::new(rs@.len(), |i: int| repository_entry_check(rs@, inst, i));
    let mut i: usize = 0;
    assert(cs.take(0) =~= Seq::<Result<(), Seq<char>>>::empty());
    while i < rs.len()
        invariant
            i <= rs@.len(),
            rs@.len() > 0,
            inst == opt_views(*install),
            cs == Seq::new(rs@.len(), |i: int| repository_entry_check(rs@, inst, i)),
            first_error(cs.take(i as int)) is Ok,
        decreases rs@.len() - i,
    {
        proof {
            lemma_first_error_step(cs, i as int);
        }
        if let Err(e) = validate_repository_entry(install, rs, i) {
            proof {
                lemma_first_error_stop(cs, i + 1);
            }
            return Err(e);
        }
        i += 1;
    }
    proof {
        lemma_first_error_whole(cs);
    }
    Ok(())
}

impl AptPackages {
    pub fn validate(&self) -> (r: Result<(), String>)
        ensures
            same_outcome(r, apt_packages_check(*self)),
    {
        require_effective(
            self.remove.is_some() || self.install.is_some() || self.repositories.is_some(),
            "packages.apt",
        )?;
        validate_string_list(&self.remove, "packages.apt.remove", ValueRule::DebianPackage)?;
        validate_string_list(&self.install, "packages.apt.install", ValueRule::DebianPackage)?;
        if let Some(repositories) = &self.repositories {
            validate_repository_list(&self.install, repositories)?;
        }
        self.validate_removals()
    }

    fn validate_removals(&self) -> (r: Result<(), String>)
        ensures
            same_outcome(r, match self.remove {
                Some(rm) => first_error(Seq::new(rm@.len(), |i: int| removal_check(*self, i))),
                None => Ok(()),
            }),
    {
        let empty: Vec<Repository> = Vec::new();
        let rs = match &self.repositories {
            Some(rs) => rs,
            None => &empty,
        };
        assert(rs@ == all_repositories(*self));
        if let Some(remove) = &self.remove {
            let ghost cs = Seq::new(remove@.len(), |i: int| removal_check(*self, i));
            let mut i: usize = 0;
            assert(cs.take(0) =~= Seq::<Result<(), Seq<char>>>::empty());
            while i < remove.len()
                invariant
                    i <= remove@.len(),
                    self.remove == Some(*remove),
                    rs@ == all_repositories(*self),
                    cs == Seq::new(remove@.len(), |i: int| removal_check(*self, i)),
                    first_error(cs.take(i as int)) is Ok,
                decreases remove@.len() - i,
            {
                proof {
                    lemma_first_error_step(cs, i as int);
                }
                let p = chars_of(remove[i].as_str());
                assert(string_views(remove@)[i as int] == p@);
                if owned_by(&self.install, rs, rs.len(), &p) {
                    proof {
                        lemma_first_error_stop(cs, i + 1);
                    }
                    let path = indexed("packages.apt.remove", i);
                    let quoted = debug_str(remove[i].as_str());
                    let mut m = concat3(path.as_str(), ": package ", quoted.as_str());
                    m.append(" is also configured for installation");
                    return Err(m);
                }
                i += 1;
            }
            proof {
                lemma_first_error_whole(cs);
            }
        }
        Ok(())
    }
}


// ------------------------------------------------------------ repositories

/// A third-party APT repository.
#[derive(Debug)]
pub struct Repository {
    pub name: String,
    pub key: HttpsUrl,
    /// A mapping: each key once.
    pub urls: Vec<(DistroMapKey, HttpsUrl)>,
    pub suite: Option<String>,
    pub components: Option<Vec<AptToken>>,
    pub path: Option<String>,
    pub packages: Vec<String>,
}

/// The file name stem of a repository name: its ASCII alphanumerics
/// lowercased, each run of other characters between them written as one
/// `-` (none at either end). `acc` is what was written so far and `sep`
/// whether a run of other characters is pending.
pub open spec fn stem_from(s: Seq<char>, acc: Seq<char>, sep: bool) -> Seq<char>
    decreases s.len(),
{
    if s.len() == 0 {
        acc
    } else if is_alnum(s[0]) {
        let lead = if sep && acc.len() > 0 { acc.push('-') } else { acc };
        stem_from(s.drop_first(), lead.push(to_lower_char(s[0])), false)
    } else {
        stem_from(s.drop_first(), acc, true)
    }
}

pub open spec fn filename_stem_of(name: Seq<char>) -> Seq<char> {
    stem_from(name, Seq::empty(), false)
}

pub open spec fn token_views(ts: Seq<AptToken>) -> Seq<Seq<char>> {
    ts.map_values(|t: AptToken| t@)
}

/// The name that `Debug` writes for a token.
pub open spec fn token_debug(t: Seq<char>) -> Seq<char> {
    "AptToken("@ + debug_text(t) + ")"@
}

pub open spec fn component_token_check(t: Seq<char>, path: Seq<char>) -> Result<(), Seq<char>> {
    then(apt_token_check(t, path),
    if t == "system"@ {
        Err(path + ": value "@ + debug_text(t) + " is reserved for the suite field"@)
    } else {
        Ok(())
    })
}

/// Where a repository's packages are: a suite with components, or an
/// exact path.
pub open spec fn repository_source_check(r: Repository, p: Seq<char>) -> Result<(), Seq<char>> {
    match (r.suite, r.components, r.path) {
        (Some(suite), Some(components), None) => {
            let cs = token_views(components@);
            then(suite_check(suite@, p + ".suite"@),
            then(unique_check(cs, |t: Seq<char>| token_debug(t), p + ".components"@),
            first_error(Seq::new(cs.len(), |j: int| component_token_check(cs[j], element_path(p + ".components"@, j))))))
        },
        (None, None, Some(exact)) => repository_path_check(exact@, p + ".path"@),
        _ => Err(p + ": requires exactly suite with non-empty components, or path"@),
    }
}

pub open spec fn repository_check(r: Repository, i: int) -> Result<(), Seq<char>> {
    let p = repository_path(i);
    then(definition_name_check(r.name@, p + ".name"@),
    then(if r.urls@.len() == 0 { Err(p + ".urls"@ + EMPTY_MAPPING@) } else { Ok(()) },
    then(string_values_check(string_views(r.packages@), p + ".packages"@, ValueRule::DebianPackage),
    repository_source_check(r, p))))
}

/// The codename that a repository whose suite is `system` resolves to: the
/// distribution's own where its URL is the distribution's own, else the
/// upstream base's.
pub open spec fn repository_platform_check(r: Repository, i: int, p: DetectedPlatform, distro: Distro, upstream: Family) -> Result<(), Seq<char>> {
    let path = repository_path(i);
    match selected_entry(r.urls@, distro, upstream) {
        None => Err(path + ".urls: no URL for distribution "@ + debug_text(p.distro@) + ", upstream "@
            + debug_text(p.upstream@) + ", or default"@),
        Some((key, _)) => if r.suite matches Some(s) && s@ == "system"@ {
            if key == DistroMapKey::Default {
                Err(path + ".suite: system cannot use a default URL because it has no repository-family codename"@)
            } else {
                let codename = if key == key_of_distro(distro) { p.distro_codename@ } else { p.base_codename@ };
                apt_token_check(codename, path + ".suite resolved codename"@)
            }
        } else {
            Ok(())
        },
    }
}

/// The file name stem of a name (see `stem_from`).
pub fn filename_stem_text(name: &str) -> (r: String)
    ensures
        r@ == filename_stem_of(name@),
{
    let cs = chars_of(name);
    let mut result = String::new();
    let mut separator = false;
    let mut wrote = false;
    let mut i: usize = 0;
    assert(cs@.skip(0) =~= cs@);
    while i < cs.len()
        invariant
            i <= cs@.len(),
            cs@ == name@,
            wrote == (result@.len() > 0),
            filename_stem_of(name@) == stem_from(cs@.skip(i as int), result@, separator),
        decreases cs@.len() - i,
    {
        let c = cs[i];
        assert(cs@.skip(i as int)[0] == c);
        assert(cs@.skip(i as int).drop_first() =~= cs@.skip(i + 1));
        if alnum(c) {
            if separator && wrote {
                push_char(&mut result, '-');
            }
            push_char(&mut result, lower_char(c));
            wrote = true;
            separator = false;
        } else {
            separator = true;
        }
        i += 1;
    }
    result
}

fn first_repeated_token(tokens: &Vec<AptToken>) -> (r: Option<usize>)
    ensures
        match r {
            Some(i) => first_repeat(token_views(tokens@), 0) == Some(i as int) && i < tokens@.len(),
            None => first_repeat(token_views(tokens@), 0) is None,
        },
{
    let ghost vs = token_views(tokens@);
    let mut i: usize = 0;
    while i < tokens.len()
        invariant
            i <= tokens@.len(),
            vs == token_views(tokens@),
            first_repeat(vs, 0) == first_repeat(vs, i as int),
        decreases tokens@.len() - i,
    {
        let target = chars_of(tokens[i].as_str());
        assert(vs[i as int] == tokens@[i as int]@);
        let mut j: usize = 0;
        let mut found = false;
        while j < i
            invariant
                j <= i < tokens@.len(),
                vs == token_views(tokens@),
                target@ == vs[i as int],
                found == exists|k: int| 0 <= k < j && vs[k] == vs[i as int],
            decreases i - j,
        {
            let other = chars_of(tokens[j].as_str());
            assert(vs[j as int] == tokens@[j as int]@);
            if crate::text::eq_chars(&other, &target) {
                found = true;
            }
            j += 1;
        }
        if found {
            return Some(i);
        }
        i += 1;
    }
    None
}

fn validate_components_tokens(tokens: &Vec<AptToken>, path: &str) -> (r: Result<(), String>)
    ensures
        same_outcome(r, then(unique_check(token_views(tokens@), |t: Seq<char>| token_debug(t), path@),
            first_error(Seq::new(tokens@.len(), |j: int| component_token_check(token_views(tokens@)[j], element_path(path@, j)))))),
{
    let ghost vs = token_views(tokens@);
    let repeat = first_repeated_token(tokens);
    if tokens.len() == 0 {
        return Err(concat(path, EMPTY_SEQUENCE));
    }
    if let Some(i) = repeat {
        let item = indexed(path, i);
        assert(vs[i as int] == tokens@[i as int]@);
        let quoted = debug_str(tokens[i].as_str());
        let mut m = concat3(item.as_str(), DUPLICATE_VALUE, "AptToken(");
        m.append(quoted.as_str());
        m.append(")");
        assert(m@ =~= element_path(path@, i as int) + DUPLICATE_VALUE@ + token_debug(vs[i as int]));
        return Err(m);
    }
    let ghost cs = Seq::new(vs.len(), |j: int| component_token_check(vs[j], element_path(path@, j)));
    let mut j: usize = 0;
    assert(cs.take(0) =~= Seq::<Result<(), Seq<char>>>::empty());
    assert(unique_check(vs, |t: Seq<char>| token_debug(t), path@) is Ok);
    while j < tokens.len()
        invariant
            j <= tokens@.len(),
            vs == token_views(tokens@),
            unique_check(vs, |t: Seq<char>| token_debug(t), path@) is Ok,
            cs == Seq::new(vs.len(), |j: int| component_token_check(vs[j], element_path(path@, j))),
            first_error(cs.take(j as int)) is Ok,
        decreases tokens@.len() - j,
    {
        proof {
            lemma_first_error_step(cs, j as int);
        }
        let item = indexed(path, j);
        let t = tokens[j].as_str();
        assert(t@ == vs[j as int]);
        assert(cs[j as int] == component_token_check(vs[j as int], element_path(path@, j as int)));
        if let Err(e) = validate_apt_token(t, item.as_str()) {
            proof {
                lemma_first_error_stop(cs, j + 1);
            }
            return Err(e);
        }
        let tv = chars_of(t);
        if eq_str(&tv, "system") {
            proof {
                lemma_first_error_stop(cs, j + 1);
            }
            let quoted = debug_str(t);
            let mut m = concat3(item.as_str(), ": value ", quoted.as_str());
            m.append(" is reserved for the suite field");
            return Err(m);
        }
        j += 1;
    }
    proof {
        lemma_first_error_whole(cs);
    }
    Ok(())
}

impl Repository {
    /// The stem of the file names that the repository's source and key are
    /// written under.
    pub fn filename_stem(&self) -> (r: String)
        ensures
            r@ == filename_stem_of(self.name@),
    {
        filename_stem_text(self.name.as_str())
    }

    fn validate(&self, index: usize) -> (r: Result<(), String>)
        ensures
            same_outcome(r, repository_check(*self, index as int)),
    {
        let path = indexed("packages.apt.repositories", index);
        validate_definition_name(self.name.as_str(), concat(path.as_str(), ".name").as_str())?;
        if self.urls.len() == 0 {
            return Err(concat3(path.as_str(), ".urls", EMPTY_MAPPING));
        }
        validate_string_values(&self.packages, concat(path.as_str(), ".packages").as_str(), ValueRule::DebianPackage)?;
        match (&self.suite, &self.components, &self.path) {
            (Some(suite), Some(components), None) => {
                validate_suite(suite.as_str(), concat(path.as_str(), ".suite").as_str())?;
                validate_components_tokens(components, concat(path.as_str(), ".components").as_str())
            },
            (None, None, Some(exact)) => validate_repository_path(exact.as_str(), concat(path.as_str(), ".path").as_str()),
            _ => Err(concat(path.as_str(), ": requires exactly suite with non-empty components, or path")),
        }
    }

    fn validate_for_platform(&self, index: usize, platform: &DetectedPlatform, distro: Distro, upstream: Family) -> (r: Result<(), String>)
        ensures
            same_outcome(r, repository_platform_check(*self, index as int, *platform, distro, upstream)),
    {
        let path = indexed("packages.apt.repositories", index);
        let key = match select_distro_map(&self.urls, distro, upstream) {
            Some((key, _)) => key,
            None => {
                let d = debug_str(platform.distro.as_str());
                let u = debug_str(platform.upstream.as_str());
                let mut m = concat3(path.as_str(), ".urls: no URL for distribution ", d.as_str());
                m.append(", upstream ");
                m.append(u.as_str());
                m.append(", or default");
                return Err(m);
            },
        };
        if let Some(suite) = &self.suite {
            let sv = chars_of(suite.as_str());
            if eq_str(&sv, "system") {
                if key == DistroMapKey::Default {
                    return Err(concat(path.as_str(), ".suite: system cannot use a default URL because it has no repository-family codename"));
                }
                let codename = if key == DistroMapKey::from_distro(distro) {
                    platform.distro_codename.as_str()
                } else {
                    platform.base_codename.as_str()
                };
                return validate_apt_token(codename, concat(path.as_str(), ".suite resolved codename").as_str());
            }
        }
        Ok(())
    }
}

/// One APT token of a configuration, such as a repository component.
#[derive(Debug)]
pub struct AptToken(String);

impl View for AptToken {
    type V = Seq<char>;

    closed spec fn view(&self) -> Seq<char> {
        self.0@
    }
}

impl AptToken {
    pub fn new(value: String) -> (r: AptToken)
        ensures
            r@ == value@,
    {
        AptToken(value)
    }

    pub fn as_str(&self) -> (r: &str)
        ensures
            r@ == self@,
    {
        self.0.as_str()
    }
}


// ------------------------------------------------------------ binaries

#[derive(Clone, Copy, Debug, PartialEq, Eq, Structural)]
pub enum BinaryFormat {
    Deb,
    Appimage,
}

/// A package installed from a downloaded binary.
#[derive(Debug)]
pub struct BinaryPackage {
    pub name: String,
    pub format: BinaryFormat,
    pub commands: Vec<String>,
    pub source: BinarySource,
}

pub open spec fn binary_check(b: BinaryPackage, i: int) -> Result<(), Seq<char>> {
    let p = binary_path(i);
    then(definition_name_check(b.name@, p + ".name"@),
    then(string_values_check(string_views(b.commands@), p + ".commands"@, ValueRule::Executable),
    source_check(b.source, p + ".source"@)))
}

impl BinaryPackage {
    fn validate(&self, index: usize) -> (r: Result<(), String>)
        ensures
            same_outcome(r, binary_check(*self, index as int)),
    {
        let path = indexed("packages.binaries", index);
        validate_definition_name(self.name.as_str(), concat(path.as_str(), ".name").as_str())?;
        validate_string_values(&self.commands, concat(path.as_str(), ".commands").as_str(), ValueRule::Executable)?;
        self.source.validate(concat(path.as_str(), ".source").as_str())
    }
}

/// Where a binary comes from: a GitHub release's assets, or fixed URLs with
/// their digests, per canonical architecture.
#[derive(Debug)]
pub enum BinarySource {
    Github { repository: String, assets: AssetMap },
    Url { urls: ArchitectureUrls, sha256: ArchitectureHashes },
}

/// Which of the canonical architectures (amd64, arm64, arm32, riscv64)
/// have an entry.
pub open spec fn url_keys(u: ArchitectureUrls) -> (bool, bool, bool, bool) {
    (u.amd64 is Some, u.arm64 is Some, u.arm32 is Some, u.riscv64 is Some)
}

pub open spec fn hash_keys(h: ArchitectureHashes) -> (bool, bool, bool, bool) {
    (h.amd64 is Some, h.arm64 is Some, h.arm32 is Some, h.riscv64 is Some)
}

pub open spec fn source_check(s: BinarySource, path: Seq<char>) -> Result<(), Seq<char>> {
    match s {
        BinarySource::Github { repository, assets } => then(
            github_repository_check(repository@, path + ".repository"@),
            asset_map_check(assets, path + ".assets"@),
        ),
        BinarySource::Url { urls, sha256 } => then(
            urls_check(urls, path + ".urls"@),
            then(hashes_check(sha256, path + ".sha256"@),
            if url_keys(urls) != hash_keys(sha256) {
                Err(path + ": urls and sha256 must contain exactly the same architecture keys"@)
            } else {
                Ok(())
            }),
        ),
    }
}

/// Whether the source has an entry for the architecture (for fixed URLs,
/// both a URL and a digest).
pub open spec fn source_has(s: BinarySource, a: Architecture) -> bool {
    match s {
        BinarySource::Github { assets, .. } => asset_keys_has(assets, a),
        BinarySource::Url { urls, sha256 } => urls_has(urls, a) && hashes_has(sha256, a),
    }
}

pub const MISSING_SELECTOR: &'static str = "missing native architecture selector";

impl BinarySource {
    fn validate(&self, path: &str) -> (r: Result<(), String>)
        ensures
            same_outcome(r, source_check(*self, path@)),
    {
        match self {
            BinarySource::Github { repository, assets } => {
                validate_github_repository(repository.as_str(), concat(path, ".repository").as_str())?;
                assets.validate(concat(path, ".assets").as_str())
            },
            BinarySource::Url { urls, sha256 } => {
                urls.validate(concat(path, ".urls").as_str())?;
                sha256.validate(concat(path, ".sha256").as_str())?;
                let same = urls.amd64.is_some() == sha256.amd64.is_some() && urls.arm64.is_some() == sha256.arm64.is_some()
                    && urls.arm32.is_some() == sha256.arm32.is_some() && urls.riscv64.is_some() == sha256.riscv64.is_some();
                if !same {
                    return Err(concat(path, ": urls and sha256 must contain exactly the same architecture keys"));
                }
                Ok(())
            },
        }
    }

    /// Succeeds where the source has an entry for the host's architecture.
    pub fn require_architecture(&self, architecture: Architecture) -> (r: Result<(), String>)
        ensures
            r is Ok <==> source_has(*self, architecture),
            r matches Err(e) ==> e@ == MISSING_SELECTOR@,
    {
        let present = match self {
            BinarySource::Github { assets, .. } => assets.contains(architecture),
            BinarySource::Url { urls, sha256 } => urls.contains(architecture) && sha256.contains(architecture),
        };
        if !present {
            return Err(MISSING_SELECTOR.to_owned());
        }
        Ok(())
    }

    /// Whether the binary comes from GitHub releases.
    pub fn is_github(&self) -> (r: bool)
        ensures
            r == (*self is Github),
    {
        match self {
            BinarySource::Github { .. } => true,
            BinarySource::Url { .. } => false,
        }
    }
}

/// The asset selectors of a GitHub release, per canonical architecture.
#[derive(Debug)]
pub struct AssetMap {
    pub amd64: Option<AssetSelector>,
    pub arm64: Option<AssetSelector>,
    pub arm32: Option<AssetSelector>,
    pub riscv64: Option<AssetSelector>,
}

pub open spec fn optional_selector_check(o: Option<AssetSelector>, path: Seq<char>) -> Result<(), Seq<char>> {
    match o {
        Some(s) => selector_check(s, path),
        None => Ok(()),
    }
}

pub open spec fn asset_map_check(a: AssetMap, path: Seq<char>) -> Result<(), Seq<char>> {
    if a.amd64 is None && a.arm64 is None && a.arm32 is None && a.riscv64 is None {
        Err(path + ": must contain at least one canonical architecture selector"@)
    } else {
        then(optional_selector_check(a.amd64, path + ".amd64"@),
        then(optional_selector_check(a.arm64, path + ".arm64"@),
        then(optional_selector_check(a.arm32, path + ".arm32"@),
        optional_selector_check(a.riscv64, path + ".riscv64"@))))
    }
}

pub open spec fn asset_keys_has(a: AssetMap, arch: Architecture) -> bool {
    match arch {
        Architecture::Amd64 => a.amd64 is Some,
        Architecture::Arm64 => a.arm64 is Some,
        Architecture::Arm32 => a.arm32 is Some,
        Architecture::Riscv64 => a.riscv64 is Some,
    }
}

fn validate_optional_selector(o: &Option<AssetSelector>, path: &str) -> (r: Result<(), String>)
    ensures
        same_outcome(r, optional_selector_check(*o, path@)),
{
    match o {
        Some(s) => s.validate(path),
        None => Ok(()),
    }
}

impl AssetMap {
    fn validate(&self, path: &str) -> (r: Result<(), String>)
        ensures
            same_outcome(r, asset_map_check(*self, path@)),
    {
        if self.amd64.is_none() && self.arm64.is_none() && self.arm32.is_none() && self.riscv64.is_none() {
            return Err(concat(path, ": must contain at least one canonical architecture selector"));
        }
        validate_optional_selector(&self.amd64, concat(path, ".amd64").as_str())?;
        validate_optional_selector(&self.arm64, concat(path, ".arm64").as_str())?;
        validate_optional_selector(&self.arm32, concat(path, ".arm32").as_str())?;
        validate_optional_selector(&self.riscv64, concat(path, ".riscv64").as_str())
    }

    /// Whether the map selects an asset for the architecture.
    pub fn contains(&self, architecture: Architecture) -> (r: bool)
        ensures
            r == asset_keys_has(*self, architecture),
    {
        match architecture {
            Architecture::Amd64 => self.amd64.is_some(),
            Architecture::Arm64 => self.arm64.is_some(),
            Architecture::Arm32 => self.arm32.is_some(),
            Architecture::Riscv64 => self.riscv64.is_some(),
        }
    }
}

/// How a release asset is chosen: a wildcard it must match, wildcards it
/// must not, and optionally its digest.
#[derive(Debug)]
pub struct AssetSelector {
    pub pattern: String,
    pub exclude: Option<Vec<String>>,
    pub sha256: Option<Sha256>,
}

pub open spec fn selector_check(s: AssetSelector, path: Seq<char>) -> Result<(), Seq<char>> {
    then(wildcard_check(s.pattern@, path + ".pattern"@),
    then(match s.exclude { Some(e) => string_values_check(string_views(e@), path + ".exclude"@, ValueRule::Wildcard), None => Ok(()) },
    match s.sha256 { Some(h) => sha256_check(h@, path + ".sha256"@), None => Ok(()) }))
}

impl AssetSelector {
    fn validate(&self, path: &str) -> (r: Result<(), String>)
        ensures
            same_outcome(r, selector_check(*self, path@)),
    {
        validate_wildcard(self.pattern.as_str(), concat(path, ".pattern").as_str())?;
        if let Some(exclude) = &self.exclude {
            validate_string_values(exclude, concat(path, ".exclude").as_str(), ValueRule::Wildcard)?;
        }
        if let Some(sha256) = &self.sha256 {
            sha256.validate(concat(path, ".sha256").as_str())?;
        }
        Ok(())
    }
}

/// A configured SHA-256 digest.
#[derive(Debug)]
pub struct Sha256(String);

impl View for Sha256 {
    type V = Seq<char>;

    closed spec fn view(&self) -> Seq<char> {
        self.0@
    }
}

impl Sha256 {
    pub fn new(value: String) -> (r: Sha256)
        ensures
            r@ == value@,
    {
        Sha256(value)
    }

    pub fn as_str(&self) -> (r: &str)
        ensures
            r@ == self@,
    {
        self.0.as_str()
    }

    fn validate(&self, path: &str) -> (r: Result<(), String>)
        ensures
            same_outcome(r, sha256_check(self@, path@)),
    {
        validate_sha256(self.0.as_str(), path)
    }
}

/// Download URLs per canonical architecture.
#[derive(Debug)]
pub struct ArchitectureUrls {
    pub amd64: Option<HttpsUrl>,
    pub arm64: Option<HttpsUrl>,
    pub arm32: Option<HttpsUrl>,
    pub riscv64: Option<HttpsUrl>,
}

pub open spec fn urls_check(u: ArchitectureUrls, path: Seq<char>) -> Result<(), Seq<char>> {
    if url_keys(u) == (false, false, false, false) {
        Err(path + ": must contain at least one canonical architecture URL"@)
    } else {
        Ok(())
    }
}

pub open spec fn urls_has(u: ArchitectureUrls, a: Architecture) -> bool {
    match a {
        Architecture::Amd64 => u.amd64 is Some,
        Architecture::Arm64 => u.arm64 is Some,
        Architecture::Arm32 => u.arm32 is Some,
        Architecture::Riscv64 => u.riscv64 is Some,
    }
}

impl ArchitectureUrls {
    fn validate(&self, path: &str) -> (r: Result<(), String>)
        ensures
            same_outcome(r, urls_check(*self, path@)),
    {
        if self.amd64.is_none() && self.arm64.is_none() && self.arm32.is_none() && self.riscv64.is_none() {
            return Err(concat(path, ": must contain at least one canonical architecture URL"));
        }
        Ok(())
    }

    pub fn contains(&self, architecture: Architecture) -> (r: bool)
        ensures
            r == urls_has(*self, architecture),
    {
        match architecture {
            Architecture::Amd64 => self.amd64.is_some(),
            Architecture::Arm64 => self.arm64.is_some(),
            Architecture::Arm32 => self.arm32.is_some(),
            Architecture::Riscv64 => self.riscv64.is_some(),
        }
    }
}

/// Expected SHA-256 digests per canonical architecture.
#[derive(Debug)]
pub struct ArchitectureHashes {
    pub amd64: Option<Sha256>,
    pub arm64: Option<Sha256>,
    pub arm32: Option<Sha256>,
    pub riscv64: Option<Sha256>,
}

pub open spec fn optional_hash_check(h: Option<Sha256>, path: Seq<char>) -> Result<(), Seq<char>> {
    match h {
        Some(x) => sha256_check(x@, path),
        None => Ok(()),
    }
}

pub open spec fn hashes_check(h: ArchitectureHashes, path: Seq<char>) -> Result<(), Seq<char>> {
    if hash_keys(h) == (false, false, false, false) {
        Err(path + ": must contain at least one canonical architecture hash"@)
    } else {
        then(optional_hash_check(h.amd64, path + ".amd64"@),
        then(optional_hash_check(h.arm64, path + ".arm64"@),
        then(optional_hash_check(h.arm32, path + ".arm32"@),
        optional_hash_check(h.riscv64, path + ".riscv64"@))))
    }
}

pub open spec fn hashes_has(h: ArchitectureHashes, a: Architecture) -> bool {
    match a {
        Architecture::Amd64 => h.amd64 is Some,
        Architecture::Arm64 => h.arm64 is Some,
        Architecture::Arm32 => h.arm32 is Some,
        Architecture::Riscv64 => h.riscv64 is Some,
    }
}

fn validate_optional_hash(h: &Option<Sha256>, path: &str) -> (r: Result<(), String>)
    ensures
        same_outcome(r, optional_hash_check(*h, path@)),
{
    match h {
        Some(x) => x.validate(path),
        None => Ok(()),
    }
}

impl ArchitectureHashes {
    fn validate(&self, path: &str) -> (r: Result<(), String>)
        ensures
            same_outcome(r, hashes_check(*self, path@)),
    {
        if self.amd64.is_none() && self.arm64.is_none() && self.arm32.is_none() && self.riscv64.is_none() {
            return Err(concat(path, ": must contain at least one canonical architecture hash"));
        }
        validate_optional_hash(&self.amd64, concat(path, ".amd64").as_str())?;
        validate_optional_hash(&self.arm64, concat(path, ".arm64").as_str())?;
        validate_optional_hash(&self.arm32, concat(path, ".arm32").as_str())?;
        validate_optional_hash(&self.riscv64, concat(path, ".riscv64").as_str())
    }

    pub fn contains(&self, architecture: Architecture) -> (r: bool)
        ensures
            r == hashes_has(*self, architecture),
    {
        match architecture {
            Architecture::Amd64 => self.amd64.is_some(),
            Architecture::Arm64 => self.arm64.is_some(),
            Architecture::Arm32 => self.arm32.is_some(),
            Architecture::Riscv64 => self.riscv64.is_some(),
        }
    }
}


// ------------------------------------------------------------ tools, fonts, dotfiles

/// Toolchain selectors.
#[derive(Debug)]
pub struct Tools {
    pub rust: Option<String>,
    pub go: Option<String>,
    pub node: Option<String>,
    pub python: Option<String>,
}

pub open spec fn tools_check(t: Tools) -> Result<(), Seq<char>> {
    then(effective_check(t.rust is Some || t.go is Some || t.node is Some || t.python is Some, "tools"@),
    then(match t.rust { Some(v) => rust_selector_check(v@, "tools.rust"@), None => Ok(()) },
    then(match t.go {
        Some(v) => if v@ == "latest"@ { Ok(()) } else { numeric_version_check(v@, "tools.go"@, 2, 3) },
        None => Ok(()),
    },
    then(match t.node {
        Some(v) => if v@ == "lts"@ || v@ == "latest"@ { Ok(()) } else { numeric_version_check(v@, "tools.node"@, 1, 3) },
        None => Ok(()),
    },
    match t.python { Some(v) => numeric_version_check(v@, "tools.python"@, 2, 3), None => Ok(()) }))))
}

impl Tools {
    pub fn validate(&self) -> (r: Result<(), String>)
        ensures
            same_outcome(r, tools_check(*self)),
    {
        require_effective(
            self.rust.is_some() || self.go.is_some() || self.node.is_some() || self.python.is_some(),
            "tools",
        )?;
        if let Some(value) = &self.rust {
            validate_rust_selector(value.as_str(), "tools.rust")?;
        }
        if let Some(value) = &self.go {
            let v = chars_of(value.as_str());
            if !eq_str(&v, "latest") {
                validate_numeric_version(value.as_str(), "tools.go", 2, 3)?;
            }
        }
        if let Some(value) = &self.node {
            let v = chars_of(value.as_str());
            if !eq_str(&v, "lts") && !eq_str(&v, "latest") {
                validate_numeric_version(value.as_str(), "tools.node", 1, 3)?;
            }
        }
        if let Some(value) = &self.python {
            validate_numeric_version(value.as_str(), "tools.python", 2, 3)?;
        }
        Ok(())
    }
}

#[derive(Debug)]
pub struct Fonts {
    pub nerd: Option<Vec<String>>,
}

pub open spec fn fonts_check(f: Fonts) -> Result<(), Seq<char>> {
    then(effective_check(f.nerd is Some, "fonts"@), string_list_check(f.nerd, "fonts.nerd"@, ValueRule::DefinitionName))
}

impl Fonts {
    pub fn validate(&self) -> (r: Result<(), String>)
        ensures
            same_outcome(r, fonts_check(*self)),
    {
        require_effective(self.nerd.is_some(), "fonts")?;
        validate_string_list(&self.nerd, "fonts.nerd", ValueRule::DefinitionName)
    }
}

#[derive(Debug)]
pub struct Dotfiles {
    pub packages: Vec<String>,
}

pub open spec fn dotfiles_check(d: Dotfiles) -> Result<(), Seq<char>> {
    string_values_check(string_views(d.packages@), "dotfiles.packages"@, ValueRule::DotfilePackage)
}

impl Dotfiles {
    pub fn validate(&self) -> (r: Result<(), String>)
        ensures
            same_outcome(r, dotfiles_check(*self)),
    {
        validate_string_values(&self.packages, "dotfiles.packages", ValueRule::DotfilePackage)
    }
}

// ------------------------------------------------------------ integrations

#[derive(Debug)]
pub struct Integrations {
    pub docker: Option<DockerIntegration>,
    pub virtualbox: Option<VirtualBoxIntegration>,
    pub vscode: Option<VsCodeIntegration>,
}

pub open spec fn integrations_check(i: Integrations) -> Result<(), Seq<char>> {
    then(effective_check(i.docker is Some || i.virtualbox is Some || i.vscode is Some, "integrations"@),
    then(match i.docker { Some(d) => docker_check(d), None => Ok(()) },
    then(match i.virtualbox { Some(v) => virtualbox_check(v), None => Ok(()) },
    match i.vscode { Some(v) => vscode_check(v), None => Ok(()) })))
}

impl Integrations {
    pub fn validate(&self) -> (r: Result<(), String>)
        ensures
            same_outcome(r, integrations_check(*self)),
    {
        require_effective(
            self.docker.is_some() || self.virtualbox.is_some() || self.vscode.is_some(),
            "integrations",
        )?;
        if let Some(docker) = &self.docker {
            docker.validate()?;
        }
        if let Some(virtualbox) = &self.virtualbox {
            virtualbox.validate()?;
        }
        if let Some(vscode) = &self.vscode {
            vscode.validate()?;
        }
        Ok(())
    }
}

#[derive(Debug)]
pub struct DockerIntegration {
    pub add_user_to_group: Option<bool>,
    pub logging: Option<DockerLogging>,
}

pub open spec fn docker_check(d: DockerIntegration) -> Result<(), Seq<char>> {
    then(effective_check(d.add_user_to_group is Some || d.logging is Some, "integrations.docker"@),
    then(true_only_check(d.add_user_to_group, "integrations.docker.add_user_to_group"@),
    match d.logging { Some(l) => logging_check(l), None => Ok(()) }))
}

impl DockerIntegration {
    pub fn validate(&self) -> (r: Result<(), String>)
        ensures
            same_outcome(r, docker_check(*self)),
    {
        require_effective(self.add_user_to_group.is_some() || self.logging.is_some(), "integrations.docker")?;
        true_only(self.add_user_to_group, "integrations.docker.add_user_to_group")?;
        if let Some(logging) = &self.logging {
            logging.validate()?;
        }
        Ok(())
    }
}

#[derive(Clone, Copy, Debug, PartialEq, Eq, Structural)]
pub enum DockerLoggingDriver {
    Local,
}

#[derive(Debug)]
pub struct DockerLogging {
    pub driver: DockerLoggingDriver,
    pub max_size: Option<String>,
}

pub open spec fn logging_check(l: DockerLogging) -> Result<(), Seq<char>> {
    match l.max_size {
        Some(size) => docker_size_check(size@, "integrations.docker.logging.max_size"@),
        None => Ok(()),
    }
}

impl DockerLogging {
    pub fn validate(&self) -> (r: Result<(), String>)
        ensures
            same_outcome(r, logging_check(*self)),
    {
        if let Some(size) = &self.max_size {
            validate_docker_size(size.as_str(), "integrations.docker.logging.max_size")?;
        }
        Ok(())
    }
}

#[derive(Debug)]
pub struct VirtualBoxIntegration {
    pub add_user_to_group: Option<bool>,
}

pub open spec fn virtualbox_check(v: VirtualBoxIntegration) -> Result<(), Seq<char>> {
    then(effective_check(v.add_user_to_group is Some, "integrations.virtualbox"@),
    true_only_check(v.add_user_to_group, "integrations.virtualbox.add_user_to_group"@))
}

impl VirtualBoxIntegration {
    pub fn validate(&self) -> (r: Result<(), String>)
        ensures
            same_outcome(r, virtualbox_check(*self)),
    {
        require_effective(self.add_user_to_group.is_some(), "integrations.virtualbox")?;
        true_only(self.add_user_to_group, "integrations.virtualbox.add_user_to_group")
    }
}

#[derive(Debug)]
pub struct VsCodeIntegration {
    pub extensions: Vec<String>,
}

pub open spec fn vscode_check(v: VsCodeIntegration) -> Result<(), Seq<char>> {
    string_values_check(string_views(v.extensions@), "integrations.vscode.extensions"@, ValueRule::VsCodeId)
}

impl VsCodeIntegration {
    pub fn validate(&self) -> (r: Result<(), String>)
        ensures
            same_outcome(r, vscode_check(*self)),
    {
        validate_string_values(&self.extensions, "integrations.vscode.extensions", ValueRule::VsCodeId)
    }
}

// ------------------------------------------------------------ desktop

#[derive(Clone, Copy, Debug, PartialEq, Eq, Structural)]
pub enum Theme {
    Light,
    Dark,
}

#[derive(Debug)]
pub struct Desktop {
    pub theme: Option<Theme>,
    pub terminal: Option<String>,
    pub idle: Option<Idle>,
    pub gnome: Option<Gnome>,
}

pub open spec fn desktop_check(d: Desktop) -> Result<(), Seq<char>> {
    then(effective_check(d.theme is Some || d.terminal is Some || d.idle is Some || d.gnome is Some, "desktop"@),
    then(match d.terminal { Some(t) => executable_check(t@, "desktop.terminal"@), None => Ok(()) },
    then(match d.idle { Some(i) => idle_check(i), None => Ok(()) },
    match d.gnome { Some(g) => gnome_check(g), None => Ok(()) })))
}

/// Settings that every supported desktop applies: theme, terminal, idle.
pub open spec fn neutral_intent(d: Desktop) -> bool {
    d.theme is Some || d.terminal is Some || d.idle is Some
}

impl Desktop {
    pub fn validate(&self) -> (r: Result<(), String>)
        ensures
            same_outcome(r, desktop_check(*self)),
    {
        require_effective(
            self.theme.is_some() || self.terminal.is_some() || self.idle.is_some() || self.gnome.is_some(),
            "desktop",
        )?;
        if let Some(terminal) = &self.terminal {
            validate_executable(terminal.as_str(), "desktop.terminal")?;
        }
        if let Some(idle) = &self.idle {
            idle.validate()?;
        }
        if let Some(gnome) = &self.gnome {
            gnome.validate()?;
        }
        Ok(())
    }

    pub fn has_neutral_intent(&self) -> (r: bool)
        ensures
            r == neutral_intent(*self),
    {
        self.theme.is_some() || self.terminal.is_some() || self.idle.is_some()
    }
}

#[derive(Debug)]
pub struct Idle {
    pub timeout: Option<String>,
    pub dim: Option<bool>,
}

pub open spec fn idle_check(i: Idle) -> Result<(), Seq<char>> {
    then(effective_check(i.timeout is Some || i.dim is Some, "desktop.idle"@),
    match i.timeout { Some(t) => duration_check(t@, "desktop.idle.timeout"@), None => Ok(()) })
}

impl Idle {
    pub fn validate(&self) -> (r: Result<(), String>)
        ensures
            same_outcome(r, idle_check(*self)),
    {
        require_effective(self.timeout.is_some() || self.dim.is_some(), "desktop.idle")?;
        if let Some(timeout) = &self.timeout {
            validate_duration(timeout.as_str(), "desktop.idle.timeout")?;
        }
        Ok(())
    }
}

#[derive(Debug)]
pub struct Gnome {
    pub extensions: Option<Vec<String>>,
    pub dock: Option<bool>,
    pub rounded_corners: Option<bool>,
}

pub open spec fn gnome_check(g: Gnome) -> Result<(), Seq<char>> {
    then(effective_check(g.extensions is Some || g.dock is Some || g.rounded_corners is Some, "desktop.gnome"@),
    then(string_list_check(g.extensions, "desktop.gnome.extensions"@, ValueRule::GnomeUuid),
    then(true_only_check(g.dock, "desktop.gnome.dock"@),
    true_only_check(g.rounded_corners, "desktop.gnome.rounded_corners"@))))
}

impl Gnome {
    pub fn validate(&self) -> (r: Result<(), String>)
        ensures
            same_outcome(r, gnome_check(*self)),
    {
        require_effective(
            self.extensions.is_some() || self.dock.is_some() || self.rounded_corners.is_some(),
            "desktop.gnome",
        )?;
        validate_string_list(&self.extensions, "desktop.gnome.extensions", ValueRule::GnomeUuid)?;
        true_only(self.dock, "desktop.gnome.dock")?;
        true_only(self.rounded_corners, "desktop.gnome.rounded_corners")
    }
}

// ------------------------------------------------------------ updates

#[derive(Debug)]
pub struct Updates {
    pub apt: Option<AptUpdate>,
    pub flatpak: Option<bool>,
    pub tools: Option<ToolUpdates>,
    pub packages: Option<PackageUpdates>,
    pub fonts: Option<bool>,
}

#[derive(Clone, Copy, Debug, PartialEq, Eq, Structural)]
pub enum AptUpdate {
    Standard,
    Full,
}

pub open spec fn has_flatpak_targets(c: Config) -> bool {
    c.packages matches Some(p) && p.flatpak is Some
}

pub open spec fn has_font_targets(c: Config) -> bool {
    c.fonts matches Some(f) && f.nerd is Some
}

pub open spec fn updates_check(u: Updates, c: Config) -> Result<(), Seq<char>> {
    then(effective_check(u.apt is Some || u.flatpak is Some || u.tools is Some || u.packages is Some || u.fonts is Some, "updates"@),
    then(true_only_check(u.flatpak, "updates.flatpak"@),
    then(true_only_check(u.fonts, "updates.fonts"@),
    then(if u.flatpak is Some && !has_flatpak_targets(c) {
        Err("updates.flatpak: requires configured packages.flatpak targets"@)
    } else {
        Ok(())
    },
    then(if u.fonts is Some && !has_font_targets(c) {
        Err("updates.fonts: requires configured fonts.nerd targets"@)
    } else {
        Ok(())
    },
    then(match u.tools { Some(t) => tool_updates_check(t, c.tools), None => Ok(()) },
    match u.packages { Some(p) => package_updates_check(p, c.packages), None => Ok(()) }))))))
}

impl Updates {
    pub fn validate(&self, config: &Config) -> (r: Result<(), String>)
        ensures
            same_outcome(r, updates_check(*self, *config)),
    {
        require_effective(
            self.apt.is_some() || self.flatpak.is_some() || self.tools.is_some() || self.packages.is_some()
                || self.fonts.is_some(),
            "updates",
        )?;
        true_only(self.flatpak, "updates.flatpak")?;
        true_only(self.fonts, "updates.fonts")?;
        let flatpak_targets = match &config.packages {
            Some(p) => p.flatpak.is_some(),
            None => false,
        };
        if self.flatpak.is_some() && !flatpak_targets {
            return Err("updates.flatpak: requires configured packages.flatpak targets".to_owned());
        }
        let font_targets = match &config.fonts {
            Some(f) => f.nerd.is_some(),
            None => false,
        };
        if self.fonts.is_some() && !font_targets {
            return Err("updates.fonts: requires configured fonts.nerd targets".to_owned());
        }
        if let Some(tools) = &self.tools {
            tools.validate(&config.tools)?;
        }
        if let Some(packages) = &self.packages {
            packages.validate(&config.packages)?;
        }
        Ok(())
    }
}

#[derive(Debug)]
pub struct ToolUpdates {
    pub rust: Option<bool>,
    pub go: Option<bool>,
    pub node: Option<bool>,
}

/// A Rust selector that moves: a channel rather than a fixed version.
pub open spec fn moving_rust(tools: Option<Tools>) -> bool {
    tools matches Some(t) && t.rust matches Some(v) && (v@ == "stable"@ || v@ == "beta"@ || v@ == "nightly"@)
}

pub open spec fn latest_go(tools: Option<Tools>) -> bool {
    tools matches Some(t) && t.go matches Some(v) && v@ == "latest"@
}

pub open spec fn moving_node(tools: Option<Tools>) -> bool {
    tools matches Some(t) && t.node matches Some(v) && (v@ == "lts"@ || v@ == "latest"@)
}

pub open spec fn tool_updates_check(u: ToolUpdates, tools: Option<Tools>) -> Result<(), Seq<char>> {
    then(effective_check(u.rust is Some || u.go is Some || u.node is Some, "updates.tools"@),
    then(true_only_check(u.rust, "updates.tools.rust"@),
    then(true_only_check(u.go, "updates.tools.go"@),
    then(true_only_check(u.node, "updates.tools.node"@),
    then(if u.rust is Some && !moving_rust(tools) {
        Err("updates.tools.rust: requires a configured moving Rust selector"@)
    } else {
        Ok(())
    },
    then(if u.go is Some && !latest_go(tools) {
        Err("updates.tools.go: requires tools.go: latest"@)
    } else {
        Ok(())
    },
    if u.node is Some && !moving_node(tools) {
        Err("updates.tools.node: requires a configured moving Node selector"@)
    } else {
        Ok(())
    }))))))
}

fn selector_is(value: &Option<String>, a: &str, b: &str, c: &str) -> (r: bool)
    ensures
        r == (value matches Some(v) && (v@ == a@ || v@ == b@ || v@ == c@)),
{
    match value {
        Some(v) => {
            let cs = chars_of(v.as_str());
            eq_str(&cs, a) || eq_str(&cs, b) || eq_str(&cs, c)
        },
        None => false,
    }
}

impl ToolUpdates {
    pub fn validate(&self, tools: &Option<Tools>) -> (r: Result<(), String>)
        ensures
            same_outcome(r, tool_updates_check(*self, *tools)),
    {
        require_effective(self.rust.is_some() || self.go.is_some() || self.node.is_some(), "updates.tools")?;
        true_only(self.rust, "updates.tools.rust")?;
        true_only(self.go, "updates.tools.go")?;
        true_only(self.node, "updates.tools.node")?;
        let (rust, go, node) = match tools {
            Some(t) => (
                selector_is(&t.rust, "stable", "beta", "nightly"),
                selector_is(&t.go, "latest", "latest", "latest"),
                selector_is(&t.node, "lts", "latest", "latest"),
            ),
            None => (false, false, false),
        };
        if self.rust.is_some() && !rust {
            return Err("updates.tools.rust: requires a configured moving Rust selector".to_owned());
        }
        if self.go.is_some() && !go {
            return Err("updates.tools.go: requires tools.go: latest".to_owned());
        }
        if self.node.is_some() && !node {
            return Err("updates.tools.node: requires a configured moving Node selector".to_owned());
        }
        Ok(())
    }
}

#[derive(Debug)]
pub struct PackageUpdates {
    pub cargo: Option<bool>,
    pub npm: Option<bool>,
    pub binaries: Option<bool>,
}

/// Whether some configured binary comes from GitHub releases.
pub open spec fn has_github_binary(packages: Option<Packages>) -> bool {
    packages matches Some(p) && p.binaries matches Some(b) && exists|i: int| 0 <= i < b@.len() && #[trigger] b@[i].source is Github
}

pub open spec fn package_updates_check(u: PackageUpdates, packages: Option<Packages>) -> Result<(), Seq<char>> {
    then(effective_check(u.cargo is Some || u.npm is Some || u.binaries is Some, "updates.packages"@),
    then(true_only_check(u.cargo, "updates.packages.cargo"@),
    then(true_only_check(u.npm, "updates.packages.npm"@),
    then(true_only_check(u.binaries, "updates.packages.binaries"@),
    then(if u.cargo is Some && !(packages matches Some(p) && p.cargo is Some) {
        Err("updates.packages.cargo: requires configured packages.cargo targets"@)
    } else {
        Ok(())
    },
    then(if u.npm is Some && !(packages matches Some(p) && p.npm is Some) {
        Err("updates.packages.npm: requires configured packages.npm targets"@)
    } else {
        Ok(())
    },
    if u.binaries is Some && !has_github_binary(packages) {
        Err("updates.packages.binaries: requires at least one configured GitHub binary target"@)
    } else {
        Ok(())
    }))))))
}

fn any_github(binaries: &Vec<BinaryPackage>) -> (r: bool)
    ensures
        r == exists|i: int| 0 <= i < binaries@.len() && #[trigger] binaries@[i].source is Github,
{
    let mut i: usize = 0;
    while i < binaries.len()
        invariant
            i <= binaries@.len(),
            forall|k: int| 0 <= k < i ==> !(#[trigger] binaries@[k].source is Github),
        decreases binaries@.len() - i,
    {
        if binaries[i].source.is_github() {
            return true;
        }
        i += 1;
    }
    false
}

impl PackageUpdates {
    pub fn validate(&self, packages: &Option<Packages>) -> (r: Result<(), String>)
        ensures
            same_outcome(r, package_updates_check(*self, *packages)),
    {
        require_effective(self.cargo.is_some() || self.npm.is_some() || self.binaries.is_some(), "updates.packages")?;
        true_only(self.cargo, "updates.packages.cargo")?;
        true_only(self.npm, "updates.packages.npm")?;
        true_only(self.binaries, "updates.packages.binaries")?;
        let (cargo, npm, github) = match packages {
            Some(p) => (
                p.cargo.is_some(),
                p.npm.is_some(),
                match &p.binaries {
                    Some(b) => any_github(b),
                    None => false,
                },
            ),
            None => (false, false, false),
        };
        if self.cargo.is_some() && !cargo {
            return Err("updates.packages.cargo: requires configured packages.cargo targets".to_owned());
        }
        if self.npm.is_some() && !npm {
            return Err("updates.packages.npm: requires configured packages.npm targets".to_owned());
        }
        if self.binaries.is_some() && !github {
            return Err("updates.packages.binaries: requires at least one configured GitHub binary target".to_owned());
        }
        Ok(())
    }
}


// ------------------------------------------------------------ the whole configuration

/// The rules of a configuration that hold on every platform, in the order
/// they are checked.
pub open spec fn config_check(c: Config) -> Result<(), Seq<char>> {
    then(match c.system { Some(s) => system_check(s), None => Ok(()) },
    then(match c.packages { Some(p) => packages_check(p), None => Ok(()) },
    then(match c.tools { Some(t) => tools_check(t), None => Ok(()) },
    then(match c.fonts { Some(f) => fonts_check(f), None => Ok(()) },
    then(match c.dotfiles { Some(d) => dotfiles_check(d), None => Ok(()) },
    then(match c.integrations { Some(i) => integrations_check(i), None => Ok(()) },
    then(match c.desktop { Some(d) => desktop_check(d), None => Ok(()) },
    then(match c.updates { Some(u) => updates_check(u, c), None => Ok(()) },
    then(if (c.packages matches Some(p) && p.cargo is Some) && !(c.tools matches Some(t) && t.rust is Some) {
        Err("packages.cargo: requires tools.rust"@)
    } else {
        Ok(())
    },
    if (c.packages matches Some(p) && p.npm is Some) && !(c.tools matches Some(t) && t.node is Some) {
        Err("packages.npm: requires tools.node"@)
    } else {
        Ok(())
    })))))))))
}

/// The platform's distribution and desktop must be among those the
/// configuration requires.
pub open spec fn required_platform_check(c: Config, p: DetectedPlatform, distro: Distro, desktop: DesktopKind) -> Result<(), Seq<char>> {
    match c.system {
        Some(s) => match s.require {
            Some(r) => if r.distros matches Some(ds) && !ds@.contains(distro) {
                Err(DISTROS_PATH@ + ": detected distribution "@ + debug_text(p.distro@) + " is not allowed"@)
            } else if r.desktops matches Some(ds) && !ds@.contains(desktop) {
                Err("system.require.desktops: detected desktop "@ + debug_text(p.desktop@) + " is not allowed"@)
            } else {
                Ok(())
            },
            None => Ok(()),
        },
        None => Ok(()),
    }
}

pub open spec fn component_names(cs: Seq<AptComponent>) -> Seq<Seq<char>> {
    cs.map_values(|c: AptComponent| component_name(c))
}

/// Managed official sources need a distribution that has a managed policy,
/// components for it, and a policy for those components.
pub open spec fn sources_platform_check(s: OfficialSources, p: DetectedPlatform, distro: Distro, upstream: Family) -> Result<(), Seq<char>> {
    if s.mode == SourceMode::Preserve {
        Ok(())
    } else if !(distro == Distro::Ubuntu || distro == Distro::Debian || distro == Distro::Kali) {
        Err("system.apt.sources.mode: managed is unsupported for distribution "@ + debug_text(p.distro@) + "; use preserve"@)
    } else {
        let m = s.components->0@;
        match selected_entry(m, distro, upstream) {
            None => Err(COMPONENTS_PATH@ + ": no entry for distribution "@ + debug_text(p.distro@) + ", upstream "@
                + debug_text(p.upstream@) + ", or default"@),
            Some((_, j)) => {
                let names = component_names(m[j].1@);
                if managed_sources_valid(p.distro@, p.distro_codename@, names) {
                    Ok(())
                } else {
                    Err(crate::platform::managed_sources_error(p.distro@, p.distro_codename@, names))
                }
            },
        }
    }
}

pub open spec fn configured_sources(c: Config) -> Option<OfficialSources> {
    match c.system {
        Some(s) => match s.apt {
            Some(a) => a.sources,
            None => None,
        },
        None => None,
    }
}

pub open spec fn configured_repositories(c: Config) -> Seq<Repository> {
    match c.packages {
        Some(p) => match p.apt {
            Some(a) => all_repositories(a),
            None => Seq::empty(),
        },
        None => Seq::empty(),
    }
}

pub open spec fn configured_binaries(c: Config) -> Seq<BinaryPackage> {
    match c.packages {
        Some(p) => match p.binaries {
            Some(b) => b@,
            None => Seq::empty(),
        },
        None => Seq::empty(),
    }
}

pub open spec fn binary_platform_check(b: BinaryPackage, i: int, a: Architecture) -> Result<(), Seq<char>> {
    if source_has(b.source, a) {
        Ok(())
    } else {
        Err(binary_path(i) + ".source."@ + canonical_name(a) + ": "@ + MISSING_SELECTOR@)
    }
}

/// The desktop settings must suit the detected desktop.
pub open spec fn desktop_platform_check(c: Config, p: DetectedPlatform, desktop: DesktopKind) -> Result<(), Seq<char>> {
    match c.desktop {
        Some(d) => if neutral_intent(d) && !(desktop == DesktopKind::Gnome || desktop == DesktopKind::Cinnamon) {
            Err("desktop: theme, terminal, and idle settings require GNOME or Cinnamon; detected "@ + debug_text(p.desktop@))
        } else if d.gnome is Some && desktop != DesktopKind::Gnome {
            Err("desktop.gnome: requires resolved GNOME desktop; detected "@ + debug_text(p.desktop@))
        } else {
            Ok(())
        },
        None => Ok(()),
    }
}

/// Every rule of a configuration on the detected platform, in the order
/// they are checked: the general rules first.
pub open spec fn platform_check(c: Config, p: DetectedPlatform) -> Result<(), Seq<char>> {
    then(config_check(c), match platform_identity(p) {
        Err(e) => Err(e),
        Ok((distro, upstream)) => match desktop_named(p.desktop@) {
            Err(e) => Err(e),
            Ok(desktop) => {
                let rs = configured_repositories(c);
                let bs = configured_binaries(c);
                then(required_platform_check(c, p, distro, desktop),
                then(match configured_sources(c) { Some(s) => sources_platform_check(s, p, distro, upstream), None => Ok(()) },
                then(first_error(Seq::new(rs.len(), |i: int| repository_platform_check(rs[i], i, p, distro, upstream))),
                then(first_error(Seq::new(bs.len(), |i: int| binary_platform_check(bs[i], i, p.architecture))),
                desktop_platform_check(c, p, desktop)))))
            },
        },
    })
}

fn contains_distro(ds: &Vec<Distro>, d: Distro) -> (r: bool)
    ensures
        r == ds@.contains(d),
{
    let mut i: usize = 0;
    while i < ds.len()
        invariant
            i <= ds@.len(),
            forall|k: int| 0 <= k < i ==> ds@[k] != d,
        decreases ds@.len() - i,
    {
        if ds[i] == d {
            assert(ds@[i as int] == d);
            return true;
        }
        i += 1;
    }
    false
}

fn contains_desktop(ds: &Vec<DesktopKind>, d: DesktopKind) -> (r: bool)
    ensures
        r == ds@.contains(d),
{
    let mut i: usize = 0;
    while i < ds.len()
        invariant
            i <= ds@.len(),
            forall|k: int| 0 <= k < i ==> ds@[k] != d,
        decreases ds@.len() - i,
    {
        if ds[i] == d {
            assert(ds@[i as int] == d);
            return true;
        }
        i += 1;
    }
    false
}

impl OfficialSources {
    fn validate_for_platform(&self, platform: &DetectedPlatform, distro: Distro, upstream: Family) -> (r: Result<(), String>)
        requires
            self.mode == SourceMode::Managed ==> self.components is Some,
        ensures
            same_outcome(r, sources_platform_check(*self, *platform, distro, upstream)),
    {
        if self.mode == SourceMode::Preserve {
            return Ok(());
        }
        if !(distro == Distro::Ubuntu || distro == Distro::Debian || distro == Distro::Kali) {
            let quoted = debug_str(platform.distro.as_str());
            return Err(concat3("system.apt.sources.mode: managed is unsupported for distribution ", quoted.as_str(), "; use preserve"));
        }
        let components = match &self.components {
            Some(c) => c,
            None => {
                return Ok(());
            },
        };
        let j = match select_distro_map(components, distro, upstream) {
            Some((_, j)) => j,
            None => {
                let d = debug_str(platform.distro.as_str());
                let u = debug_str(platform.upstream.as_str());
                let mut m = concat3(COMPONENTS_PATH, ": no entry for distribution ", d.as_str());
                m.append(", upstream ");
                m.append(u.as_str());
                m.append(", or default");
                return Err(m);
            },
        };
        let selected = &components[j].1;
        let mut names: Vec<String> = Vec::new();
        let mut k: usize = 0;
        while k < selected.len()
            invariant
                k <= selected@.len(),
                string_views(names@) == component_names(selected@.take(k as int)),
            decreases selected@.len() - k,
        {
            let name = String::from_str(selected[k].as_str());
            assert(name@ == component_name(selected@[k as int]));
            let ghost before = names@;
            names.push(name);
            assert(names@ == before.push(name));
            assert(string_views(names@) =~= string_views(before).push(name@));
            assert(selected@.take(k + 1) =~= selected@.take(k as int).push(selected@[k as int]));
            assert(component_names(selected@.take(k + 1)) =~= component_names(selected@.take(k as int)).push(component_name(selected@[k as int])));
            assert(string_views(names@) =~= component_names(selected@.take(k + 1)));
            k += 1;
        }
        assert(selected@.take(selected@.len() as int) =~= selected@);
        match managed_apt_sources(platform.distro.as_str(), platform.distro_codename.as_str(), platform.architecture, &names) {
            Ok(_) => Ok(()),
            Err(e) => Err(e),
        }
    }
}

fn repositories_for_platform(rs: &Vec<Repository>, platform: &DetectedPlatform, distro: Distro, upstream: Family) -> (r: Result<(), String>)
    ensures
        same_outcome(r, first_error(Seq::new(rs@.len(), |i: int| repository_platform_check(rs@[i], i, *platform, distro, upstream)))),
{
    let ghost cs = Seq::new(rs@.len(), |i: int| repository_platform_check(rs@[i], i, *platform, distro, upstream));
    let mut i: usize = 0;
    assert(cs.take(0) =~= Seq::<Result<(), Seq<char>>>::empty());
    while i < rs.len()
        invariant
            i <= rs@.len(),
            cs == Seq::new(rs@.len(), |i: int| repository_platform_check(rs@[i], i, *platform, distro, upstream)),
            first_error(cs.take(i as int)) is Ok,
        decreases rs@.len() - i,
    {
        proof {
            lemma_first_error_step(cs, i as int);
        }
        if let Err(e) = rs[i].validate_for_platform(i, platform, distro, upstream) {
            proof {
                lemma_first_error_stop(cs, i + 1);
            }
            return Err(e);
        }
        i += 1;
    }
    proof {
        lemma_first_error_whole(cs);
    }
    Ok(())
}

fn binaries_for_platform(bs: &Vec<BinaryPackage>, architecture: Architecture) -> (r: Result<(), String>)
    ensures
        same_outcome(r, first_error(Seq::new(bs@.len(), |i: int| binary_platform_check(bs@[i], i, architecture)))),
{
    let ghost cs = Seq::new(bs@.len(), |i: int| binary_platform_check(bs@[i], i, architecture));
    let mut i: usize = 0;
    assert(cs.take(0) =~= Seq::<Result<(), Seq<char>>>::empty());
    while i < bs.len()
        invariant
            i <= bs@.len(),
            cs == Seq::new(bs@.len(), |i: int| binary_platform_check(bs@[i], i, architecture)),
            first_error(cs.take(i as int)) is Ok,
        decreases bs@.len() - i,
    {
        proof {
            lemma_first_error_step(cs, i as int);
        }
        if let Err(e) = bs[i].source.require_architecture(architecture) {
            proof {
                lemma_first_error_stop(cs, i + 1);
            }
            let mut m = indexed("packages.binaries", i);
            m.append(".source.");
            m.append(architecture.canonical());
            m.append(": ");
            m.append(e.as_str());
            return Err(m);
        }
        i += 1;
    }
    proof {
        lemma_first_error_whole(cs);
    }
    Ok(())
}

impl Config {
    /// Checks the rules that hold on every platform.
    pub fn validate(&self) -> (r: Result<(), String>)
        ensures
            same_outcome(r, config_check(*self)),
    {
        if let Some(system) = &self.system {
            system.validate()?;
        }
        if let Some(packages) = &self.packages {
            packages.validate()?;
        }
        if let Some(tools) = &self.tools {
            tools.validate()?;
        }
        if let Some(fonts) = &self.fonts {
            fonts.validate()?;
        }
        if let Some(dotfiles) = &self.dotfiles {
            dotfiles.validate()?;
        }
        if let Some(integrations) = &self.integrations {
            integrations.validate()?;
        }
        if let Some(desktop) = &self.desktop {
            desktop.validate()?;
        }
        if let Some(updates) = &self.updates {
            updates.validate(self)?;
        }
        let cargo = match &self.packages {
            Some(p) => p.cargo.is_some(),
            None => false,
        };
        let npm = match &self.packages {
            Some(p) => p.npm.is_some(),
            None => false,
        };
        let rust = match &self.tools {
            Some(t) => t.rust.is_some(),
            None => false,
        };
        let node = match &self.tools {
            Some(t) => t.node.is_some(),
            None => false,
        };
        if cargo && !rust {
            return Err("packages.cargo: requires tools.rust".to_owned());
        }
        if npm && !node {
            return Err("packages.npm: requires tools.node".to_owned());
        }
        Ok(())
    }

    /// Checks every rule on the detected platform: the general rules, then
    /// the platform's identity, the required platforms, the managed
    /// sources, the repositories' URLs, the binaries' architectures and the
    /// desktop settings.
    pub fn validate_for_platform(&self, platform: &DetectedPlatform) -> (r: Result<(), String>)
        ensures
            same_outcome(r, platform_check(*self, *platform)),
    {
        self.validate()?;
        let (distro, upstream) = validate_platform_identity(platform)?;
        let desktop = desktop_from_platform(platform.desktop.as_str())?;
        if let Some(system) = &self.system {
            if let Some(require) = &system.require {
                if let Some(allowed) = &require.distros {
                    if !contains_distro(allowed, distro) {
                        let quoted = debug_str(platform.distro.as_str());
                        let mut m = concat3(DISTROS_PATH, ": detected distribution ", quoted.as_str());
                        m.append(" is not allowed");
                        return Err(m);
                    }
                }
                if let Some(allowed) = &require.desktops {
                    if !contains_desktop(allowed, desktop) {
                        let quoted = debug_str(platform.desktop.as_str());
                        return Err(concat3("system.require.desktops: detected desktop ", quoted.as_str(), " is not allowed"));
                    }
                }
            }
        }
        if let Some(system) = &self.system {
            if let Some(apt) = &system.apt {
                if let Some(sources) = &apt.sources {
                    sources.validate_for_platform(platform, distro, upstream)?;
                }
            }
        }
        let empty_repositories: Vec<Repository> = Vec::new();
        let empty_binaries: Vec<BinaryPackage> = Vec::new();
        let mut rs = &empty_repositories;
        let mut bs = &empty_binaries;
        if let Some(packages) = &self.packages {
            if let Some(apt) = &packages.apt {
                if let Some(repositories) = &apt.repositories {
                    rs = repositories;
                }
            }
            if let Some(binaries) = &packages.binaries {
                bs = binaries;
            }
        }
        assert(rs@ == configured_repositories(*self));
        assert(bs@ == configured_binaries(*self));
        repositories_for_platform(rs, platform, distro, upstream)?;
        binaries_for_platform(bs, platform.architecture)?;
        if let Some(configured) = &self.desktop {
            if configured.has_neutral_intent() && !(desktop == DesktopKind::Gnome || desktop == DesktopKind::Cinnamon) {
                let quoted = debug_str(platform.desktop.as_str());
                return Err(concat("desktop: theme, terminal, and idle settings require GNOME or Cinnamon; detected ", quoted.as_str()));
            }
            if configured.gnome.is_some() && desktop != DesktopKind::Gnome {
                let quoted = debug_str(platform.desktop.as_str());
                return Err(concat("desktop.gnome: requires resolved GNOME desktop; detected ", quoted.as_str()));
            }
        }
        Ok(())
    }
}

} // verus!
