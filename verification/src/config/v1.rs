//! The schema 1 configuration: its data, and the rules that it must
//! satisfy in general and on the detected platform.
//!
//! Reading the YAML text into these types is the caller's work; the rules
//! on the values read stand here.
pub mod rules;

use vstd::prelude::*;
use crate::config::model::rules::{first_repeat, first_repeat_by, then};
use crate::config::model::{component_name, filename_stem_of, filename_stem_text, DetectedPlatform};
use crate::domain::{HttpsUrl as LiteralUrl, UrlFault, https_url_outcome};
use crate::platform::{canonical_name, Architecture, Family};
use crate::text::{
    chars_of, concat, concat3, debug_str, debug_text, decimal_u128, decimal_u64, element_path,
    eq_str, first_error, indexed, lemma_first_error_step, lemma_first_error_stop,
    lemma_first_error_whole, same_outcome, signed_text, string_views,
};
use self::rules::{
    check_entries, check_rule, entries_check, fails_at, literal_check, numeric_check, package_list_check,
    required_unique_check, rule_check, rust_version_check, unique_strings_check, validate_duration,
    validate_github_repository, validate_literal, validate_numeric_version, validate_package_list,
    validate_positive_size, validate_required_unique_strings, validate_rust_version,
    validate_unique_strings, Rule, DURATION_RULE, GITHUB_RULE, SIZE_RULE,
};

pub use crate::config::model::{AptComponent, Theme};

verus! {

// ------------------------------------------------------------ the schema

pub const SCHEMA_ADVICE: &'static str = "; only schema 1 is supported; rewrite legacy configurations or run 'cozydot init'";

/// The `schema` field: the number 1, else the message for the number read.
pub open spec fn schema_check(value: int) -> Result<u8, Seq<char>> {
    if value == 1 {
        Ok(1u8)
    } else {
        Err("unsupported schema version "@ + signed_text(value) + SCHEMA_ADVICE@)
    }
}

/// Accepts the `schema` field read as an unsigned integer.
pub fn schema_from_unsigned(value: u64) -> (r: Result<u8, String>)
    ensures
        match r {
            Ok(s) => schema_check(value as int) == Ok::<u8, Seq<char>>(s),
            Err(e) => schema_check(value as int) == Err::<u8, Seq<char>>(e@),
        },
{
    if value == 1 {
        Ok(1)
    } else {
        Err(concat3("unsupported schema version ", decimal_u64(value).as_str(), SCHEMA_ADVICE))
    }
}

/// Accepts the `schema` field read as a signed integer.
pub fn schema_from_signed(value: i64) -> (r: Result<u8, String>)
    ensures
        match r {
            Ok(s) => schema_check(value as int) == Ok::<u8, Seq<char>>(s),
            Err(e) => schema_check(value as int) == Err::<u8, Seq<char>>(e@),
        },
{
    if value == 1 {
        Ok(1)
    } else if value < 0 {
        let magnitude = decimal_u128((0 - (value as i128)) as u128);
        let mut m = String::from_str("unsupported schema version -");
        proof {
            reveal_strlit("unsupported schema version -");
            reveal_strlit("unsupported schema version ");
            reveal_strlit("-");
        }
        m.append(magnitude.as_str());
        m.append(SCHEMA_ADVICE);
        assert(m@ =~= "unsupported schema version "@ + signed_text(value as int) + SCHEMA_ADVICE@);
        Err(m)
    } else {
        Err(concat3("unsupported schema version ", decimal_u64(value as u64).as_str(), SCHEMA_ADVICE))
    }
}

// ------------------------------------------------------------ distributions and desktops

/// A configured distribution; `Auto` leaves it to detection.
#[derive(Clone, Copy, Debug, PartialEq, Eq, Structural)]
pub enum Distro {
    Auto,
    Ubuntu,
    Linuxmint,
    Pop,
    Zorin,
    Deepin,
    Debian,
    Kali,
    Tails,
}

/// The identifier of a configured distribution, as detection reports it.
pub open spec fn distro_id(d: Distro) -> Option<Seq<char>> {
    match d {
        Distro::Auto => None,
        Distro::Ubuntu => Some("ubuntu"@),
        Distro::Linuxmint => Some("linuxmint"@),
        Distro::Pop => Some("pop"@),
        Distro::Zorin => Some("zorin"@),
        Distro::Deepin => Some("deepin"@),
        Distro::Debian => Some("debian"@),
        Distro::Kali => Some("kali"@),
        Distro::Tails => Some("tails"@),
    }
}

/// The upstream family of a configured distribution.
pub open spec fn distro_family(d: Distro) -> Option<Family> {
    match d {
        Distro::Auto => None,
        Distro::Ubuntu | Distro::Linuxmint | Distro::Pop | Distro::Zorin | Distro::Deepin => Some(Family::Ubuntu),
        Distro::Debian | Distro::Kali | Distro::Tails => Some(Family::Debian),
    }
}

impl Distro {
    pub fn upstream(&self) -> (r: Option<Family>)
        ensures
            r == distro_family(*self),
    {
        match self {
            Distro::Auto => None,
            Distro::Ubuntu | Distro::Linuxmint | Distro::Pop | Distro::Zorin | Distro::Deepin => Some(Family::Ubuntu),
            Distro::Debian | Distro::Kali | Distro::Tails => Some(Family::Debian),
        }
    }

    pub fn configured_id(&self) -> (r: Option<&'static str>)
        ensures
            match r {
                Some(s) => distro_id(*self) == Some(s@),
                None => distro_id(*self) is None,
            },
    {
        match self {
            Distro::Auto => None,
            Distro::Ubuntu => Some("ubuntu"),
            Distro::Linuxmint => Some("linuxmint"),
            Distro::Pop => Some("pop"),
            Distro::Zorin => Some("zorin"),
            Distro::Deepin => Some("deepin"),
            Distro::Debian => Some("debian"),
            Distro::Kali => Some("kali"),
            Distro::Tails => Some("tails"),
        }
    }
}

pub const UNSUPPORTED_DISTRO: &'static str = "; supported distributions are ubuntu, linuxmint, pop, zorin, deepin, debian, kali, and tails";

/// The family of a detected distribution.
pub open spec fn family_of_distro(distro: Seq<char>) -> Result<Family, Seq<char>> {
    if distro == "ubuntu"@ || distro == "linuxmint"@ || distro == "pop"@ || distro == "zorin"@ || distro == "deepin"@ {
        Ok(Family::Ubuntu)
    } else if distro == "debian"@ || distro == "kali"@ || distro == "tails"@ {
        Ok(Family::Debian)
    } else {
        Err("system.distro: unsupported detected distribution "@ + debug_text(distro) + UNSUPPORTED_DISTRO@)
    }
}

pub fn upstream_for_distro(distro: &str) -> (r: Result<Family, String>)
    ensures
        match r {
            Ok(f) => family_of_distro(distro@) == Ok::<Family, Seq<char>>(f),
            Err(e) => family_of_distro(distro@) == Err::<Family, Seq<char>>(e@),
        },
{
    let v = chars_of(distro);
    if eq_str(&v, "ubuntu") || eq_str(&v, "linuxmint") || eq_str(&v, "pop") || eq_str(&v, "zorin") || eq_str(&v, "deepin") {
        Ok(Family::Ubuntu)
    } else if eq_str(&v, "debian") || eq_str(&v, "kali") || eq_str(&v, "tails") {
        Ok(Family::Debian)
    } else {
        let quoted = debug_str(distro);
        Err(concat3("system.distro: unsupported detected distribution ", quoted.as_str(), UNSUPPORTED_DISTRO))
    }
}

/// The family that detection reports by name.
pub open spec fn family_named(upstream: Seq<char>) -> Result<Family, Seq<char>> {
    if upstream == "ubuntu"@ {
        Ok(Family::Ubuntu)
    } else if upstream == "debian"@ {
        Ok(Family::Debian)
    } else {
        Err("system.distro: unsupported platform upstream family "@ + debug_text(upstream)
            + "; supported families are ubuntu and debian"@)
    }
}

pub fn upstream_from_id(upstream: &str) -> (r: Result<Family, String>)
    ensures
        match r {
            Ok(f) => family_named(upstream@) == Ok::<Family, Seq<char>>(f),
            Err(e) => family_named(upstream@) == Err::<Family, Seq<char>>(e@),
        },
{
    let v = chars_of(upstream);
    if eq_str(&v, "ubuntu") {
        Ok(Family::Ubuntu)
    } else if eq_str(&v, "debian") {
        Ok(Family::Debian)
    } else {
        let quoted = debug_str(upstream);
        Err(concat3("system.distro: unsupported platform upstream family ", quoted.as_str(), "; supported families are ubuntu and debian"))
    }
}

/// A configured desktop; `Auto` leaves it to detection, `Headless` is
/// written `none`.
#[derive(Clone, Copy, Debug, PartialEq, Eq, Structural)]
pub enum DesktopKind {
    Auto,
    Headless,
    Gnome,
    Cinnamon,
}

pub open spec fn desktop_id(d: DesktopKind) -> Option<Seq<char>> {
    match d {
        DesktopKind::Auto => None,
        DesktopKind::Headless => Some("none"@),
        DesktopKind::Gnome => Some("gnome"@),
        DesktopKind::Cinnamon => Some("cinnamon"@),
    }
}

impl DesktopKind {
    pub fn configured_id(&self) -> (r: Option<&'static str>)
        ensures
            match r {
                Some(s) => desktop_id(*self) == Some(s@),
                None => desktop_id(*self) is None,
            },
    {
        match self {
            DesktopKind::Auto => None,
            DesktopKind::Headless => Some("none"),
            DesktopKind::Gnome => Some("gnome"),
            DesktopKind::Cinnamon => Some("cinnamon"),
        }
    }
}

// ------------------------------------------------------------ system

#[derive(Clone, Copy, Debug, PartialEq, Eq, Structural)]
pub enum AptSources {
    Preserve,
    Managed,
}

#[derive(Debug)]
pub struct SystemApt {
    pub sources: Option<AptSources>,
    pub components: Option<Vec<AptComponent>>,
    pub unattended_upgrades: Option<bool>,
}

pub const COMPONENTS_PATH: &'static str = "system.apt.components";

/// Whether a family's archive has the component.
pub open spec fn family_has(f: Family, c: AptComponent) -> bool {
    match f {
        Family::Ubuntu => c == AptComponent::Main || c == AptComponent::Restricted || c == AptComponent::Universe
            || c == AptComponent::Multiverse,
        Family::Debian => c == AptComponent::Main || c == AptComponent::Contrib || c == AptComponent::NonFree
            || c == AptComponent::NonFreeFirmware,
    }
}

pub open spec fn component_support_check(cs: Seq<AptComponent>, f: Family, i: int) -> Result<(), Seq<char>> {
    if family_has(f, cs[i]) {
        Ok(())
    } else {
        Err(element_path(COMPONENTS_PATH@, i) + ": component "@ + debug_text(component_name(cs[i]))
            + " is unsupported by the configured distribution family"@)
    }
}

/// Components need managed sources, must be listed once each, and, where
/// the family is known, must be ones its archive has.
pub open spec fn system_apt_check(a: SystemApt, upstream: Option<Family>) -> Result<(), Seq<char>> {
    match a.components {
        None => Ok(()),
        Some(cs) => if a.sources != Some(AptSources::Managed) {
            Err(COMPONENTS_PATH@ + ": valid only with system.apt.sources: managed"@)
        } else if cs@.len() == 0 {
            Err(COMPONENTS_PATH@ + ": must be a non-empty sequence"@)
        } else {
            match first_repeat(cs@, 0) {
                Some(i) => Err(element_path(COMPONENTS_PATH@, i) + ": duplicate value "@ + debug_text(component_name(cs@[i]))),
                None => match upstream {
                    None => Ok(()),
                    Some(f) => first_error(Seq::new(cs@.len(), |i: int| component_support_check(cs@, f, i))),
                },
            }
        },
    }
}

fn family_has_exec(f: Family, c: AptComponent) -> (r: bool)
    ensures
        r == family_has(f, c),
{
    match f {
        Family::Ubuntu => c == AptComponent::Main || c == AptComponent::Restricted || c == AptComponent::Universe
            || c == AptComponent::Multiverse,
        Family::Debian => c == AptComponent::Main || c == AptComponent::Contrib || c == AptComponent::NonFree
            || c == AptComponent::NonFreeFirmware,
    }
}

fn check_component_support(cs: &Vec<AptComponent>, f: Family) -> (r: Result<(), String>)
    ensures
        same_outcome(r, first_error(Seq::new(cs@.len(), |i: int| component_support_check(cs@, f, i)))),
{
    let ghost checks = Seq::new(cs@.len(), |i: int| component_support_check(cs@, f, i));
    let mut i: usize = 0;
    assert(checks.take(0) =~= Seq::<Result<(), Seq<char>>>::empty());
    while i < cs.len()
        invariant
            i <= cs@.len(),
            checks == Seq::new(cs@.len(), |i: int| component_support_check(cs@, f, i)),
            first_error(checks.take(i as int)) is Ok,
        decreases cs@.len() - i,
    {
        proof {
            lemma_first_error_step(checks, i as int);
        }
        if !family_has_exec(f, cs[i]) {
            proof {
                lemma_first_error_stop(checks, i + 1);
            }
            let item = indexed(COMPONENTS_PATH, i);
            let quoted = debug_str(cs[i].as_str());
            let mut m = concat3(item.as_str(), ": component ", quoted.as_str());
            m.append(" is unsupported by the configured distribution family");
            return Err(m);
        }
        i += 1;
    }
    proof {
        lemma_first_error_whole(checks);
    }
    Ok(())
}

impl SystemApt {
    pub fn validate(&self, upstream: Option<Family>) -> (r: Result<(), String>)
        ensures
            same_outcome(r, system_apt_check(*self, upstream)),
    {
        let components = match &self.components {
            None => {
                return Ok(());
            },
            Some(c) => c,
        };
        if self.sources != Some(AptSources::Managed) {
            return Err(concat(COMPONENTS_PATH, ": valid only with system.apt.sources: managed"));
        }
        if components.len() == 0 {
            return Err(concat(COMPONENTS_PATH, ": must be a non-empty sequence"));
        }
        let same = |a: AptComponent, b: AptComponent| -> (e: bool) ensures e == (a == b) { a == b };
        if let Some(i) = first_repeat_by(components, same) {
            let item = indexed(COMPONENTS_PATH, i);
            let quoted = debug_str(components[i].as_str());
            return Err(concat3(item.as_str(), ": duplicate value ", quoted.as_str()));
        }
        match upstream {
            None => Ok(()),
            Some(f) => check_component_support(components, f),
        }
    }
}

#[derive(Debug)]
pub struct UbuntuSystem {
    pub snap: Option<bool>,
    pub codecs: Option<bool>,
}

#[derive(Debug)]
pub struct System {
    pub distro: Option<Distro>,
    pub desktop: Option<DesktopKind>,
    pub ensure_admin: Option<bool>,
    pub apt: Option<SystemApt>,
    pub ubuntu: Option<UbuntuSystem>,
}

pub open spec fn configured_family(s: System) -> Option<Family> {
    match s.distro {
        Some(d) => distro_family(d),
        None => None,
    }
}

pub open spec fn system_check(s: System) -> Result<(), Seq<char>> {
    match s.apt {
        Some(a) => system_apt_check(a, configured_family(s)),
        None => Ok(()),
    }
}

impl System {
    pub fn validate(&self) -> (r: Result<(), String>)
        ensures
            same_outcome(r, system_check(*self)),
    {
        if let Some(apt) = &self.apt {
            let upstream = match &self.distro {
                Some(d) => d.upstream(),
                None => None,
            };
            apt.validate(upstream)?;
        }
        Ok(())
    }
}

// ------------------------------------------------------------ repositories

pub const TOKEN_RULE: &'static str = "must be one lowercase APT source token starting with a letter or digit and containing only letters, digits, '.', '_', '+', or '-'";

/// An APT source token: a lowercase letter or digit, then lowercase
/// letters, digits, `.`, `_`, `+` and `-`.
pub open spec fn source_token_ok(v: Seq<char>) -> bool {
    crate::config::model::rules::led_by(v, false, crate::config::model::rules::CharClass::AptToken)
}

/// A suite or component of an APT source.
#[derive(Debug)]
pub struct AptSourceToken(String);

impl View for AptSourceToken {
    type V = Seq<char>;

    closed spec fn view(&self) -> Seq<char> {
        self.0@
    }
}

impl AptSourceToken {
    /// Accepts one APT source token.
    pub fn parse(value: &str) -> (r: Result<AptSourceToken, String>)
        ensures
            match r {
                Ok(t) => source_token_ok(value@) && t@ == value@,
                Err(e) => !source_token_ok(value@) && e@ == TOKEN_RULE@,
            },
    {
        let v = chars_of(value);
        if crate::config::model::rules::led_ok(&v, false, crate::config::model::rules::CharClass::AptToken) {
            Ok(AptSourceToken(String::from_str(value)))
        } else {
            Err(String::from_str(TOKEN_RULE))
        }
    }

    pub fn as_str(&self) -> (r: &str)
        ensures
            r@ == self@,
    {
        self.0.as_str()
    }
}

/// The suite of a repository: the system's own codename, or a fixed one.
#[derive(Debug)]
pub enum ConfiguredRepositorySuite {
    System,
    Fixed(AptSourceToken),
}

impl ConfiguredRepositorySuite {
    /// Reads a configured suite: `system`, else one APT source token.
    pub fn parse(value: &str) -> (r: Result<ConfiguredRepositorySuite, String>)
        ensures
            value@ == "system"@ ==> r matches Ok(ConfiguredRepositorySuite::System),
            value@ != "system"@ ==> match r {
                Ok(ConfiguredRepositorySuite::Fixed(t)) => source_token_ok(value@) && t@ == value@,
                Ok(ConfiguredRepositorySuite::System) => false,
                Err(e) => !source_token_ok(value@) && e@ == TOKEN_RULE@,
            },
    {
        let v = chars_of(value);
        if eq_str(&v, "system") {
            Ok(ConfiguredRepositorySuite::System)
        } else {
            match AptSourceToken::parse(value) {
                Ok(t) => Ok(ConfiguredRepositorySuite::Fixed(t)),
                Err(e) => Err(e),
            }
        }
    }
}

/// The message of a refused URL, by the rule it breaks.
pub open spec fn url_fault_message(f: UrlFault) -> Seq<char> {
    match f {
        UrlFault::Empty => "URL: must be a non-empty string"@,
        UrlFault::NotLiteral => "must be a literal HTTPS URL without whitespace or substitutions"@,
        UrlFault::Unparsable => "must be a valid absolute HTTPS URL"@,
        UrlFault::NotHttps => "must use HTTPS with a non-empty host and no credentials or fragment"@,
    }
}

/// What `HttpsUrl::parse` gives: the canonical serialization, or the
/// message for the first rule broken.
pub open spec fn url_result(value: Seq<char>) -> Result<Seq<char>, Seq<char>> {
    match https_url_outcome(value) {
        Ok(s) => Ok(s),
        Err(f) => Err(url_fault_message(f)),
    }
}

/// A literal HTTPS URL of a schema 1 configuration, in the `url` crate's
/// serialization.
#[derive(Debug)]
pub struct HttpsUrl {
    url: LiteralUrl,
}

impl View for HttpsUrl {
    type V = Seq<char>;

    closed spec fn view(&self) -> Seq<char> {
        self.url@
    }
}

impl HttpsUrl {
    pub fn as_str(&self) -> (r: &str)
        ensures
            r@ == self@,
    {
        self.url.as_str()
    }

    /// Accepts a literal HTTPS URL and keeps its canonical serialization.
    pub fn parse(value: &str) -> (r: Result<HttpsUrl, String>)
        ensures
            match r {
                Ok(u) => url_result(value@) == Ok::<Seq<char>, Seq<char>>(u@),
                Err(e) => url_result(value@) == Err::<Seq<char>, Seq<char>>(e@),
            },
    {
        match LiteralUrl::check(value) {
            Ok(url) => Ok(HttpsUrl { url }),
            Err(f) => Err(String::from_str(match f {
                UrlFault::Empty => "URL: must be a non-empty string",
                UrlFault::NotLiteral => "must be a literal HTTPS URL without whitespace or substitutions",
                UrlFault::Unparsable => "must be a valid absolute HTTPS URL",
                UrlFault::NotHttps => "must use HTTPS with a non-empty host and no credentials or fragment",
            })),
        }
    }
}

/// The source URLs of a repository: a default, and one per distribution.
#[derive(Debug)]
pub struct RepositoryUrls {
    pub default: Option<HttpsUrl>,
    pub ubuntu: Option<HttpsUrl>,
    pub linuxmint: Option<HttpsUrl>,
    pub pop: Option<HttpsUrl>,
    pub zorin: Option<HttpsUrl>,
    pub deepin: Option<HttpsUrl>,
    pub debian: Option<HttpsUrl>,
    pub kali: Option<HttpsUrl>,
    pub tails: Option<HttpsUrl>,
}

/// The entry of a supported distribution; `None` for any other name.
pub open spec fn distro_entry(u: RepositoryUrls, distro: Seq<char>) -> Option<Option<HttpsUrl>> {
    if distro == "ubuntu"@ {
        Some(u.ubuntu)
    } else if distro == "linuxmint"@ {
        Some(u.linuxmint)
    } else if distro == "pop"@ {
        Some(u.pop)
    } else if distro == "zorin"@ {
        Some(u.zorin)
    } else if distro == "deepin"@ {
        Some(u.deepin)
    } else if distro == "debian"@ {
        Some(u.debian)
    } else if distro == "kali"@ {
        Some(u.kali)
    } else if distro == "tails"@ {
        Some(u.tails)
    } else {
        None
    }
}

/// The URL for a distribution: its own entry first, else the default.
pub open spec fn selected_url(u: RepositoryUrls, distro: Seq<char>) -> Result<Seq<char>, Seq<char>> {
    match distro_entry(u, distro) {
        None => Err("repository source URL selection: unsupported distro "@ + debug_text(distro)),
        Some(Some(url)) => Ok(url@),
        Some(None) => match u.default {
            Some(url) => Ok(url@),
            None => Err("repository source URL selection: no URL for distro "@ + debug_text(distro)
                + " and no default URL"@),
        },
    }
}

pub open spec fn urls_present(u: RepositoryUrls) -> bool {
    u.default is Some || u.ubuntu is Some || u.linuxmint is Some || u.pop is Some || u.zorin is Some
        || u.deepin is Some || u.debian is Some || u.kali is Some || u.tails is Some
}

pub const URLS_RULE: &'static str = ": must contain default and/or a supported distro key";

impl RepositoryUrls {
    /// The URL for a distribution, as text.
    pub fn select(&self, distro: &str) -> (r: Result<&str, String>)
        ensures
            match r {
                Ok(s) => selected_url(*self, distro@) == Ok::<Seq<char>, Seq<char>>(s@),
                Err(e) => selected_url(*self, distro@) == Err::<Seq<char>, Seq<char>>(e@),
            },
    {
        match self.select_url(distro) {
            Ok(url) => Ok(url.as_str()),
            Err(e) => Err(e),
        }
    }

    /// The URL for a distribution: its own entry first, else the default.
    pub fn select_url(&self, distro: &str) -> (r: Result<&HttpsUrl, String>)
        ensures
            match r {
                Ok(u) => selected_url(*self, distro@) == Ok::<Seq<char>, Seq<char>>(u@),
                Err(e) => selected_url(*self, distro@) == Err::<Seq<char>, Seq<char>>(e@),
            },
    {
        let v = chars_of(distro);
        let selected = if eq_str(&v, "ubuntu") {
            &self.ubuntu
        } else if eq_str(&v, "linuxmint") {
            &self.linuxmint
        } else if eq_str(&v, "pop") {
            &self.pop
        } else if eq_str(&v, "zorin") {
            &self.zorin
        } else if eq_str(&v, "deepin") {
            &self.deepin
        } else if eq_str(&v, "debian") {
            &self.debian
        } else if eq_str(&v, "kali") {
            &self.kali
        } else if eq_str(&v, "tails") {
            &self.tails
        } else {
            let quoted = debug_str(distro);
            return Err(concat("repository source URL selection: unsupported distro ", quoted.as_str()));
        };
        match selected {
            Some(url) => Ok(url),
            None => match &self.default {
                Some(url) => Ok(url),
                None => {
                    let quoted = debug_str(distro);
                    Err(concat3("repository source URL selection: no URL for distro ", quoted.as_str(), " and no default URL"))
                },
            },
        }
    }

    pub fn validate(&self, path: &str) -> (r: Result<(), String>)
        ensures
            same_outcome(r, fails_at(urls_present(*self), path@, URLS_RULE@)),
    {
        if self.default.is_some() || self.ubuntu.is_some() || self.linuxmint.is_some() || self.pop.is_some()
            || self.zorin.is_some() || self.deepin.is_some() || self.debian.is_some() || self.kali.is_some()
            || self.tails.is_some() {
            Ok(())
        } else {
            Err(concat(path, URLS_RULE))
        }
    }
}

/// Where a repository's packages come from.
#[derive(Debug)]
pub struct RepositorySource {
    pub urls: RepositoryUrls,
    pub suite: ConfiguredRepositorySuite,
    pub components: Vec<AptSourceToken>,
}

pub open spec fn source_token_views(ts: Seq<AptSourceToken>) -> Seq<Seq<char>> {
    ts.map_values(|t: AptSourceToken| t@)
}

/// A required list of tokens, each once; a repeat is written as `Debug`
/// writes the token.
pub open spec fn token_list_check(ts: Seq<AptSourceToken>, path: Seq<char>) -> Result<(), Seq<char>> {
    if ts.len() == 0 {
        Err(path + ": must be a non-empty sequence"@)
    } else {
        match first_repeat(source_token_views(ts), 0) {
            Some(i) => Err(element_path(path, i) + ": duplicate value AptSourceToken("@ + debug_text(ts[i]@) + ")"@),
            None => Ok(()),
        }
    }
}

pub open spec fn repository_source_check(s: RepositorySource, path: Seq<char>) -> Result<(), Seq<char>> {
    then(fails_at(urls_present(s.urls), path + ".urls"@, URLS_RULE@), token_list_check(s.components@, path + ".components"@))
}

fn first_repeated_source_token(tokens: &Vec<AptSourceToken>) -> (r: Option<usize>)
    ensures
        match r {
            Some(i) => first_repeat(source_token_views(tokens@), 0) == Some(i as int) && i < tokens@.len(),
            None => first_repeat(source_token_views(tokens@), 0) is None,
        },
{
    let ghost vs = source_token_views(tokens@);
    let mut i: usize = 0;
    while i < tokens.len()
        invariant
            i <= tokens@.len(),
            vs == source_token_views(tokens@),
            first_repeat(vs, 0) == first_repeat(vs, i as int),
        decreases tokens@.len() - i,
    {
        let target = chars_of(tokens[i].as_str());
        assert(vs[i as int] == tokens@[i as int]@);
        let mut j: usize = 0;
        let mut found = false;
        while j < i
            invariant
                j <= i < tokens@.len(),
                vs == source_token_views(tokens@),
                target@ == vs[i as int],
                found == exists|k: int| 0 <= k < j && vs[k] == vs[i as int],
            decreases i - j,
        {
            let other = chars_of(tokens[j].as_str());
            assert(vs[j as int] == tokens@[j as int]@);
            if crate::text::eq_chars(&other, &target) {
                found = true;
            }
            j += 1;
        }
        if found {
            return Some(i);
        }
        i += 1;
    }
    None
}

impl RepositorySource {
    pub fn validate(&self, path: &str) -> (r: Result<(), String>)
        ensures
            same_outcome(r, repository_source_check(*self, path@)),
    {
        let urls_path = concat(path, ".urls");
        self.urls.validate(urls_path.as_str())?;
        let components_path = concat(path, ".components");
        if self.components.len() == 0 {
            return Err(concat(components_path.as_str(), ": must be a non-empty sequence"));
        }
        match first_repeated_source_token(&self.components) {
            Some(i) => {
                let item = indexed(components_path.as_str(), i);
                let quoted = debug_str(self.components[i].as_str());
                let mut m = concat3(item.as_str(), ": duplicate value AptSourceToken(", quoted.as_str());
                m.append(")");
                Err(m)
            },
            None => Ok(()),
        }
    }
}

/// A third-party APT repository: its signing key, its source, and the
/// packages it provides.
#[derive(Debug)]
pub struct Repository {
    pub name: String,
    pub key: HttpsUrl,
    pub source: RepositorySource,
    pub packages: Vec<String>,
}

pub open spec fn repository_check(r: Repository, path: Seq<char>) -> Result<(), Seq<char>> {
    then(literal_check(r.name@, path + ".name"@),
    then(repository_source_check(r.source, path + ".source"@),
    then(required_unique_check(string_views(r.packages@), path + ".packages"@),
    entries_check(string_views(r.packages@), path + ".packages"@, Rule::DebianPackage))))
}

impl Repository {
    /// The file name stem of the repository's name: its ASCII
    /// alphanumerics lowercased, each run of other characters between them
    /// written as one `-`.
    pub fn sanitized_name(&self) -> (r: String)
        ensures
            r@ == filename_stem_of(self.name@),
    {
        filename_stem_text(self.name.as_str())
    }

    pub fn validate(&self, path: &str) -> (r: Result<(), String>)
        ensures
            same_outcome(r, repository_check(*self, path@)),
    {
        validate_literal(self.name.as_str(), concat(path, ".name").as_str())?;
        self.source.validate(concat(path, ".source").as_str())?;
        let packages = concat(path, ".packages");
        validate_required_unique_strings(&self.packages, packages.as_str())?;
        check_entries(&self.packages, packages.as_str(), Rule::DebianPackage)
    }
}

pub open spec fn repository_path(i: int) -> Seq<char> {
    element_path("packages.repositories"@, i)
}

/// The repository at `i`: valid, and its name and its file name stem not
/// those of an earlier one, the stem not empty.
pub open spec fn repository_entry_check(rs: Seq<Repository>, i: int) -> Result<(), Seq<char>> {
    let path = repository_path(i);
    let stem = filename_stem_of(rs[i].name@);
    then(repository_check(rs[i], path),
    if exists|j: int| 0 <= j < i && #[trigger] rs[j].name@ == rs[i].name@ {
        Err(path + ".name: duplicate repository name "@ + debug_text(rs[i].name@))
    } else if stem.len() == 0 {
        Err(path + ".name: produces an empty repository filename stem"@)
    } else if exists|j: int| 0 <= j < i && #[trigger] filename_stem_of(rs[j].name@) == stem {
        Err(path + ".name: sanitized repository filename stem "@ + debug_text(stem) + " collides with an earlier repository"@)
    } else {
        Ok(())
    })
}

pub open spec fn repositories_check(rs: Seq<Repository>) -> Result<(), Seq<char>> {
    first_error(Seq::new(rs.len(), |i: int| repository_entry_check(rs, i)))
}

fn earlier_repository_named(rs: &Vec<Repository>, i: usize) -> (r: bool)
    requires
        i < rs@.len(),
    ensures
        r == exists|j: int| 0 <= j < i && #[trigger] rs@[j].name@ == rs@[i as int].name@,
{
    let target = chars_of(rs[i].name.as_str());
    let mut j: usize = 0;
    while j < i
        invariant
            j <= i < rs@.len(),
            target@ == rs@[i as int].name@,
            forall|k: int| 0 <= k < j ==> #[trigger] rs@[k].name@ != rs@[i as int].name@,
        decreases i - j,
    {
        let other = chars_of(rs[j].name.as_str());
        if crate::text::eq_chars(&other, &target) {
            return true;
        }
        j += 1;
    }
    false
}

fn earlier_stem(rs: &Vec<Repository>, i: usize, stem: &String) -> (r: bool)
    requires
        i < rs@.len(),
        stem@ == filename_stem_of(rs@[i as int].name@),
    ensures
        r == exists|j: int| 0 <= j < i && #[trigger] filename_stem_of(rs@[j].name@) == filename_stem_of(rs@[i as int].name@),
{
    let target = chars_of(stem.as_str());
    let mut j: usize = 0;
    while j < i
        invariant
            j <= i < rs@.len(),
            target@ == filename_stem_of(rs@[i as int].name@),
            forall|k: int| 0 <= k < j ==> #[trigger] filename_stem_of(rs@[k].name@) != filename_stem_of(rs@[i as int].name@),
        decreases i - j,
    {
        let other_stem = rs[j].sanitized_name();
        let other = chars_of(other_stem.as_str());
        if crate::text::eq_chars(&other, &target) {
            return true;
        }
        j += 1;
    }
    false
}

fn validate_repository_entry(rs: &Vec<Repository>, i: usize) -> (r: Result<(), String>)
    requires
        i < rs@.len(),
    ensures
        same_outcome(r, repository_entry_check(rs@, i as int)),
{
    let path = indexed("packages.repositories", i);
    rs[i].validate(path.as_str())?;
    if earlier_repository_named(rs, i) {
        let quoted = debug_str(rs[i].name.as_str());
        return Err(concat3(path.as_str(), ".name: duplicate repository name ", quoted.as_str()));
    }
    let stem = rs[i].sanitized_name();
    if stem.as_str().unicode_len() == 0 {
        return Err(concat(path.as_str(), ".name: produces an empty repository filename stem"));
    }
    if earlier_stem(rs, i, &stem) {
        let quoted = debug_str(stem.as_str());
        let mut m = concat3(path.as_str(), ".name: sanitized repository filename stem ", quoted.as_str());
        m.append(" collides with an earlier repository");
        return Err(m);
    }
    Ok(())
}

fn validate_repositories(rs: &Vec<Repository>) -> (r: Result<(), String>)
    ensures
        same_outcome(r, repositories_check(rs@)),
{
    let ghost cs = Seq::new(rs@.len(), |i: int| repository_entry_check(rs@, i));
    let mut i: usize = 0;
    assert(cs.take(0) =~= Seq::<Result<(), Seq<char>>>::empty());
    while i < rs.len()
        invariant
            i <= rs@.len(),
            cs == Seq::new(rs@.len(), |i: int| repository_entry_check(rs@, i)),
            first_error(cs.take(i as int)) is Ok,
        decreases rs@.len() - i,
    {
        proof {
            lemma_first_error_step(cs, i as int);
        }
        if let Err(e) = validate_repository_entry(rs, i) {
            proof {
                lemma_first_error_stop(cs, i + 1);
            }
            return Err(e);
        }
        i += 1;
    }
    proof {
        lemma_first_error_whole(cs);
    }
    Ok(())
}

/// The repository at `i` must have a URL for the distribution.
pub open spec fn repository_url_check(rs: Seq<Repository>, distro: Seq<char>, i: int) -> Result<(), Seq<char>> {
    match selected_url(rs[i].source.urls, distro) {
        Ok(_) => Ok(()),
        Err(e) => Err(repository_path(i) + ".source.urls: "@ + e),
    }
}

pub open spec fn repository_urls_check(rs: Seq<Repository>, distro: Seq<char>) -> Result<(), Seq<char>> {
    first_error(Seq::new(rs.len(), |i: int| repository_url_check(rs, distro, i)))
}

fn validate_repository_urls(rs: &Vec<Repository>, distro: &str) -> (r: Result<(), String>)
    ensures
        same_outcome(r, repository_urls_check(rs@, distro@)),
{
    let ghost cs = Seq::new(rs@.len(), |i: int| repository_url_check(rs@, distro@, i));
    let mut i: usize = 0;
    assert(cs.take(0) =~= Seq::<Result<(), Seq<char>>>::empty());
    while i < rs.len()
        invariant
            i <= rs@.len(),
            cs == Seq::new(rs@.len(), |i: int| repository_url_check(rs@, distro@, i)),
            first_error(cs.take(i as int)) is Ok,
        decreases rs@.len() - i,
    {
        proof {
            lemma_first_error_step(cs, i as int);
        }
        if let Err(e) = rs[i].source.urls.select(distro) {
            proof {
                lemma_first_error_stop(cs, i + 1);
            }
            let path = indexed("packages.repositories", i);
            return Err(concat3(path.as_str(), ".source.urls: ", e.as_str()));
        }
        i += 1;
    }
    proof {
        lemma_first_error_whole(cs);
    }
    Ok(())
}

// ------------------------------------------------------------ direct packages

#[derive(Clone, Copy, Debug, PartialEq, Eq, Structural)]
pub enum DirectFormat {
    Deb,
    Appimage,
}

#[derive(Clone, Copy, Debug, PartialEq, Eq, Structural)]
pub enum GithubSourceType {
    Github,
}

/// A release asset selector: a wildcard that the asset's name must match,
/// and wildcards it must not match.
#[derive(Debug)]
pub struct AssetSelector {
    pub pattern: String,
    pub exclude: Vec<String>,
}

pub open spec fn selector_check(s: AssetSelector, path: Seq<char>) -> Result<(), Seq<char>> {
    then(rule_check(Rule::Wildcard, s.pattern@, path + ".pattern"@),
    then(entries_check(string_views(s.exclude@), path + ".exclude"@, Rule::Wildcard),
    unique_strings_check(string_views(s.exclude@), path + ".exclude"@)))
}

impl AssetSelector {
    pub fn validate(&self, path: &str) -> (r: Result<(), String>)
        ensures
            same_outcome(r, selector_check(*self, path@)),
    {
        check_rule(Rule::Wildcard, self.pattern.as_str(), concat(path, ".pattern").as_str())?;
        let exclude = concat(path, ".exclude");
        check_entries(&self.exclude, exclude.as_str(), Rule::Wildcard)?;
        validate_unique_strings(&self.exclude, exclude.as_str())
    }
}

/// One selector per canonical architecture.
#[derive(Debug)]
pub struct AssetSelectors {
    pub amd64: Option<AssetSelector>,
    pub arm64: Option<AssetSelector>,
    pub arm32: Option<AssetSelector>,
    pub riscv64: Option<AssetSelector>,
}

pub open spec fn selector_for(a: AssetSelectors, architecture: Architecture) -> Option<AssetSelector> {
    match architecture {
        Architecture::Amd64 => a.amd64,
        Architecture::Arm64 => a.arm64,
        Architecture::Arm32 => a.arm32,
        Architecture::Riscv64 => a.riscv64,
    }
}

pub open spec fn optional_selector_check(o: Option<AssetSelector>, path: Seq<char>) -> Result<(), Seq<char>> {
    match o {
        Some(s) => selector_check(s, path),
        None => Ok(()),
    }
}

pub const SELECTORS_RULE: &'static str = ": must contain at least one canonical architecture selector";

pub open spec fn selectors_check(a: AssetSelectors, path: Seq<char>) -> Result<(), Seq<char>> {
    if a.amd64 is None && a.arm64 is None && a.arm32 is None && a.riscv64 is None {
        Err(path + SELECTORS_RULE@)
    } else {
        then(optional_selector_check(a.amd64, path + ".amd64"@),
        then(optional_selector_check(a.arm64, path + ".arm64"@),
        then(optional_selector_check(a.arm32, path + ".arm32"@),
        optional_selector_check(a.riscv64, path + ".riscv64"@))))
    }
}

fn validate_optional_selector(o: &Option<AssetSelector>, path: &str, architecture: &str) -> (r: Result<(), String>)
    ensures
        same_outcome(r, optional_selector_check(*o, path@ + "."@ + architecture@)),
{
    match o {
        Some(s) => {
            let p = concat3(path, ".", architecture);
            s.validate(p.as_str())
        },
        None => Ok(()),
    }
}

impl AssetSelectors {
    /// The selector of an architecture.
    pub fn get(&self, architecture: Architecture) -> (r: Option<&AssetSelector>)
        ensures
            match r {
                Some(s) => selector_for(*self, architecture) == Some(*s),
                None => selector_for(*self, architecture) is None,
            },
    {
        match architecture {
            Architecture::Amd64 => self.amd64.as_ref(),
            Architecture::Arm64 => self.arm64.as_ref(),
            Architecture::Arm32 => self.arm32.as_ref(),
            Architecture::Riscv64 => self.riscv64.as_ref(),
        }
    }

    pub fn validate(&self, path: &str) -> (r: Result<(), String>)
        ensures
            same_outcome(r, selectors_check(*self, path@)),
    {
        if self.amd64.is_none() && self.arm64.is_none() && self.arm32.is_none() && self.riscv64.is_none() {
            return Err(concat(path, SELECTORS_RULE));
        }
        proof {
            reveal_strlit(".");
            reveal_strlit("amd64");
            reveal_strlit("arm64");
            reveal_strlit("arm32");
            reveal_strlit("riscv64");
            reveal_strlit(".amd64");
            reveal_strlit(".arm64");
            reveal_strlit(".arm32");
            reveal_strlit(".riscv64");
        }
        assert(path@ + "."@ + "amd64"@ =~= path@ + ".amd64"@);
        assert(path@ + "."@ + "arm64"@ =~= path@ + ".arm64"@);
        assert(path@ + "."@ + "arm32"@ =~= path@ + ".arm32"@);
        assert(path@ + "."@ + "riscv64"@ =~= path@ + ".riscv64"@);
        validate_optional_selector(&self.amd64, path, "amd64")?;
        validate_optional_selector(&self.arm64, path, "arm64")?;
        validate_optional_selector(&self.arm32, path, "arm32")?;
        validate_optional_selector(&self.riscv64, path, "riscv64")
    }
}

/// A GitHub release source.
#[derive(Debug)]
pub struct GithubSource {
    pub kind: GithubSourceType,
    pub repository: String,
    pub assets: AssetSelectors,
}

pub open spec fn github_source_check(g: GithubSource, path: Seq<char>) -> Result<(), Seq<char>> {
    then(fails_at(crate::config::model::rules::github_repository_ok(g.repository@), path + ".repository"@, GITHUB_RULE@),
    selectors_check(g.assets, path + ".assets"@))
}

impl GithubSource {
    pub fn validate(&self, path: &str) -> (r: Result<(), String>)
        ensures
            same_outcome(r, github_source_check(*self, path@)),
    {
        validate_github_repository(self.repository.as_str(), concat(path, ".repository").as_str())?;
        self.assets.validate(concat(path, ".assets").as_str())
    }
}

/// A package installed from a GitHub release asset.
#[derive(Debug)]
pub struct DirectPackage {
    pub name: String,
    pub format: DirectFormat,
    pub provides: Vec<String>,
    pub source: GithubSource,
}

pub open spec fn direct_package_check(d: DirectPackage, path: Seq<char>) -> Result<(), Seq<char>> {
    then(rule_check(Rule::DefinitionName, d.name@, path + ".name"@),
    then(required_unique_check(string_views(d.provides@), path + ".provides"@),
    then(entries_check(string_views(d.provides@), path + ".provides"@, Rule::Executable),
    github_source_check(d.source, path + ".source"@))))
}

impl DirectPackage {
    pub fn validate(&self, path: &str) -> (r: Result<(), String>)
        ensures
            same_outcome(r, direct_package_check(*self, path@)),
    {
        check_rule(Rule::DefinitionName, self.name.as_str(), concat(path, ".name").as_str())?;
        let provides = concat(path, ".provides");
        validate_required_unique_strings(&self.provides, provides.as_str())?;
        check_entries(&self.provides, provides.as_str(), Rule::Executable)?;
        self.source.validate(concat(path, ".source").as_str())
    }
}

pub open spec fn direct_path(i: int) -> Seq<char> {
    element_path("packages.direct"@, i)
}

/// The direct package at `i`: valid, and its name not that of an earlier
/// one.
pub open spec fn direct_entry_check(ds: Seq<DirectPackage>, i: int) -> Result<(), Seq<char>> {
    then(direct_package_check(ds[i], direct_path(i)),
    if exists|j: int| 0 <= j < i && #[trigger] ds[j].name@ == ds[i].name@ {
        Err(direct_path(i) + ".name: duplicate direct-package name "@ + debug_text(ds[i].name@))
    } else {
        Ok(())
    })
}

pub open spec fn directs_check(ds: Seq<DirectPackage>) -> Result<(), Seq<char>> {
    first_error(Seq::new(ds.len(), |i: int| direct_entry_check(ds, i)))
}

fn earlier_direct_named(ds: &Vec<DirectPackage>, i: usize) -> (r: bool)
    requires
        i < ds@.len(),
    ensures
        r == exists|j: int| 0 <= j < i && #[trigger] ds@[j].name@ == ds@[i as int].name@,
{
    let target = chars_of(ds[i].name.as_str());
    let mut j: usize = 0;
    while j < i
        invariant
            j <= i < ds@.len(),
            target@ == ds@[i as int].name@,
            forall|k: int| 0 <= k < j ==> #[trigger] ds@[k].name@ != ds@[i as int].name@,
        decreases i - j,
    {
        let other = chars_of(ds[j].name.as_str());
        if crate::text::eq_chars(&other, &target) {
            return true;
        }
        j += 1;
    }
    false
}

fn validate_directs(ds: &Vec<DirectPackage>) -> (r: Result<(), String>)
    ensures
        same_outcome(r, directs_check(ds@)),
{
    let ghost cs = Seq::new(ds@.len(), |i: int| direct_entry_check(ds@, i));
    let mut i: usize = 0;
    assert(cs.take(0) =~= Seq::<Result<(), Seq<char>>>::empty());
    while i < ds.len()
        invariant
            i <= ds@.len(),
            cs == Seq::new(ds@.len(), |i: int| direct_entry_check(ds@, i)),
            first_error(cs.take(i as int)) is Ok,
        decreases ds@.len() - i,
    {
        proof {
            lemma_first_error_step(cs, i as int);
        }
        let path = indexed("packages.direct", i);
        let checked = ds[i].validate(path.as_str());
        if checked.is_err() || earlier_direct_named(ds, i) {
            proof {
                lemma_first_error_stop(cs, i + 1);
            }
            return match checked {
                Err(e) => Err(e),
                Ok(_) => {
                    let quoted = debug_str(ds[i].name.as_str());
                    Err(concat3(path.as_str(), ".name: duplicate direct-package name ", quoted.as_str()))
                },
            };
        }
        i += 1;
    }
    proof {
        lemma_first_error_whole(cs);
    }
    Ok(())
}

/// The direct package at `i` must have a selector for the architecture.
pub open spec fn native_selector_check(ds: Seq<DirectPackage>, a: Architecture, i: int) -> Result<(), Seq<char>> {
    if selector_for(ds[i].source.assets, a) is Some {
        Ok(())
    } else {
        Err(direct_path(i) + ".source.assets."@ + canonical_name(a) + ": missing native asset selector for package "@
            + debug_text(ds[i].name@))
    }
}

pub open spec fn native_selectors_check(ds: Seq<DirectPackage>, a: Architecture) -> Result<(), Seq<char>> {
    first_error(Seq::new(ds.len(), |i: int| native_selector_check(ds, a, i)))
}

fn validate_native_selectors(ds: &Vec<DirectPackage>, architecture: Architecture) -> (r: Result<(), String>)
    ensures
        same_outcome(r, native_selectors_check(ds@, architecture)),
{
    let ghost cs = Seq::new(ds@.len(), |i: int| native_selector_check(ds@, architecture, i));
    let mut i: usize = 0;
    assert(cs.take(0) =~= Seq::<Result<(), Seq<char>>>::empty());
    while i < ds.len()
        invariant
            i <= ds@.len(),
            cs == Seq::new(ds@.len(), |i: int| native_selector_check(ds@, architecture, i)),
            first_error(cs.take(i as int)) is Ok,
        decreases ds@.len() - i,
    {
        proof {
            lemma_first_error_step(cs, i as int);
        }
        if ds[i].source.assets.get(architecture).is_none() {
            proof {
                lemma_first_error_stop(cs, i + 1);
            }
            let path = indexed("packages.direct", i);
            let mut m = concat3(path.as_str(), ".source.assets.", architecture.canonical());
            m.append(": missing native asset selector for package ");
            let quoted = debug_str(ds[i].name.as_str());
            m.append(quoted.as_str());
            return Err(m);
        }
        i += 1;
    }
    proof {
        lemma_first_error_whole(cs);
    }
    Ok(())
}

// ------------------------------------------------------------ packages

#[derive(Debug)]
pub struct Packages {
    pub remove: Option<Vec<String>>,
    pub apt: Option<Vec<String>>,
    pub repositories: Option<Vec<Repository>>,
    pub flatpak: Option<Vec<String>>,
    pub cargo: Option<Vec<String>>,
    pub npm: Option<Vec<String>>,
    pub direct: Option<Vec<DirectPackage>>,
}

pub open spec fn repositories_of(p: Packages) -> Seq<Repository> {
    match p.repositories {
        Some(rs) => rs@,
        None => Seq::empty(),
    }
}

pub open spec fn directs_of(p: Packages) -> Seq<DirectPackage> {
    match p.direct {
        Some(ds) => ds@,
        None => Seq::empty(),
    }
}

/// The package rules, in the order they are checked; the repositories'
/// URLs are checked for the configured distribution where there is one.
pub open spec fn packages_check(p: Packages, distro: Option<Seq<char>>) -> Result<(), Seq<char>> {
    then(package_list_check(p.remove, "packages.remove"@, Rule::DebianPackage),
    then(package_list_check(p.apt, "packages.apt"@, Rule::DebianPackage),
    then(package_list_check(p.flatpak, "packages.flatpak"@, Rule::FlatpakId),
    then(package_list_check(p.cargo, "packages.cargo"@, Rule::CargoPackage),
    then(package_list_check(p.npm, "packages.npm"@, Rule::NpmPackage),
    then(repositories_check(repositories_of(p)),
    then(match distro { Some(d) => repository_urls_check(repositories_of(p), d), None => Ok(()) },
    directs_check(directs_of(p)))))))))
}

impl Packages {
    pub fn validate(&self, distro: Option<&str>) -> (r: Result<(), String>)
        ensures
            same_outcome(r, packages_check(*self, match distro { Some(d) => Some(d@), None => None })),
    {
        validate_package_list(&self.remove, "packages.remove", Rule::DebianPackage)?;
        validate_package_list(&self.apt, "packages.apt", Rule::DebianPackage)?;
        validate_package_list(&self.flatpak, "packages.flatpak", Rule::FlatpakId)?;
        validate_package_list(&self.cargo, "packages.cargo", Rule::CargoPackage)?;
        validate_package_list(&self.npm, "packages.npm", Rule::NpmPackage)?;
        if let Some(rs) = &self.repositories {
            validate_repositories(rs)?;
        } else {
            assert(repositories_of(*self) =~= Seq::<Repository>::empty());
        }
        if let Some(d) = distro {
            self.validate_repository_urls_for_distro(d)?;
        }
        match &self.direct {
            Some(ds) => validate_directs(ds),
            None => {
                assert(directs_of(*self) =~= Seq::<DirectPackage>::empty());
                Ok(())
            },
        }
    }

    /// Every repository must have a URL for the distribution.
    pub fn validate_repository_urls_for_distro(&self, distro: &str) -> (r: Result<(), String>)
        ensures
            same_outcome(r, repository_urls_check(repositories_of(*self), distro@)),
    {
        match &self.repositories {
            Some(rs) => validate_repository_urls(rs, distro),
            None => {
                assert(repositories_of(*self) =~= Seq::<Repository>::empty());
                Ok(())
            },
        }
    }

    /// Every direct package must have a selector for the architecture.
    pub fn validate_native_selectors(&self, architecture: Architecture) -> (r: Result<(), String>)
        ensures
            same_outcome(r, native_selectors_check(directs_of(*self), architecture)),
    {
        match &self.direct {
            Some(ds) => validate_native_selectors(ds, architecture),
            None => {
                assert(directs_of(*self) =~= Seq::<DirectPackage>::empty());
                Ok(())
            },
        }
    }
}

// ------------------------------------------------------------ tools, fonts, dotfiles

#[derive(Debug)]
pub struct Tools {
    pub rust: Option<String>,
    pub go: Option<String>,
    pub node: Option<String>,
    pub python: Option<String>,
}

pub open spec fn tools_check(t: Tools) -> Result<(), Seq<char>> {
    then(match t.rust { Some(v) => rust_version_check(v@, "tools.rust"@), None => Ok(()) },
    then(match t.go {
        Some(v) => if v@ == "latest"@ { Ok(()) } else { numeric_check(v@, "tools.go"@, 2, 3) },
        None => Ok(()),
    },
    then(match t.node {
        Some(v) => if v@ == "latest"@ || v@ == "lts"@ { Ok(()) } else { numeric_check(v@, "tools.node"@, 1, 3) },
        None => Ok(()),
    },
    match t.python { Some(v) => numeric_check(v@, "tools.python"@, 2, 3), None => Ok(()) })))
}

impl Tools {
    pub fn validate(&self) -> (r: Result<(), String>)
        ensures
            same_outcome(r, tools_check(*self)),
    {
        if let Some(version) = &self.rust {
            validate_rust_version(version.as_str(), "tools.rust")?;
        }
        if let Some(version) = &self.go {
            if !eq_str(&chars_of(version.as_str()), "latest") {
                validate_numeric_version(version.as_str(), "tools.go", 2, 3)?;
            }
        }
        if let Some(version) = &self.node {
            let v = chars_of(version.as_str());
            if !eq_str(&v, "latest") && !eq_str(&v, "lts") {
                validate_numeric_version(version.as_str(), "tools.node", 1, 3)?;
            }
        }
        if let Some(version) = &self.python {
            validate_numeric_version(version.as_str(), "tools.python", 2, 3)?;
        }
        Ok(())
    }
}

#[derive(Debug)]
pub struct Fonts {
    pub nerd: Option<Vec<String>>,
}

#[derive(Debug)]
pub struct Dotfiles {
    pub packages: Vec<String>,
}

/// An optional list of literals, each once.
pub open spec fn optional_unique_check(vs: Option<Vec<String>>, path: Seq<char>) -> Result<(), Seq<char>> {
    match vs {
        Some(v) => unique_strings_check(string_views(v@), path),
        None => Ok(()),
    }
}

/// An optional list of literals, each once, then each by the rule.
pub open spec fn optional_entries_check(vs: Option<Vec<String>>, path: Seq<char>, rule: Rule) -> Result<(), Seq<char>> {
    match vs {
        Some(v) => then(unique_strings_check(string_views(v@), path), entries_check(string_views(v@), path, rule)),
        None => Ok(()),
    }
}

fn validate_optional_entries(vs: &Option<Vec<String>>, path: &str, rule: Rule) -> (r: Result<(), String>)
    ensures
        same_outcome(r, optional_entries_check(*vs, path@, rule)),
{
    match vs {
        Some(v) => {
            validate_unique_strings(v, path)?;
            check_entries(v, path, rule)
        },
        None => Ok(()),
    }
}

pub open spec fn dotfiles_check(d: Dotfiles) -> Result<(), Seq<char>> {
    then(required_unique_check(string_views(d.packages@), "dotfiles.packages"@),
    entries_check(string_views(d.packages@), "dotfiles.packages"@, Rule::DirectoryName))
}

// ------------------------------------------------------------ integrations

#[derive(Debug)]
pub struct DockerIntegration {
    pub add_user_to_group: Option<bool>,
    pub local_log_driver: Option<bool>,
    pub max_log_size: Option<String>,
}

pub const MAX_LOG_SIZE_PATH: &'static str = "integrations.docker.max_log_size";

pub open spec fn docker_check(d: DockerIntegration) -> Result<(), Seq<char>> {
    match d.max_log_size {
        Some(size) => if d.local_log_driver != Some(true) {
            Err(MAX_LOG_SIZE_PATH@ + ": requires integrations.docker.local_log_driver: true"@)
        } else {
            fails_at(crate::config::model::rules::docker_size_ok(size@), MAX_LOG_SIZE_PATH@, SIZE_RULE@)
        },
        None => Ok(()),
    }
}

impl DockerIntegration {
    pub fn validate(&self) -> (r: Result<(), String>)
        ensures
            same_outcome(r, docker_check(*self)),
    {
        if let Some(size) = &self.max_log_size {
            if self.local_log_driver != Some(true) {
                return Err(concat(MAX_LOG_SIZE_PATH, ": requires integrations.docker.local_log_driver: true"));
            }
            validate_positive_size(size.as_str(), MAX_LOG_SIZE_PATH)?;
        }
        Ok(())
    }
}

#[derive(Debug)]
pub struct VirtualBoxIntegration {
    pub add_user_to_group: Option<bool>,
}

#[derive(Debug)]
pub struct VsCodeIntegration {
    pub extensions: Option<Vec<String>>,
}

#[derive(Debug)]
pub struct Integrations {
    pub docker: Option<DockerIntegration>,
    pub virtualbox: Option<VirtualBoxIntegration>,
    pub vscode: Option<VsCodeIntegration>,
}

pub open spec fn integrations_check(i: Integrations) -> Result<(), Seq<char>> {
    then(match i.docker { Some(d) => docker_check(d), None => Ok(()) },
    match i.vscode {
        Some(v) => optional_entries_check(v.extensions, "integrations.vscode.extensions"@, Rule::VsCodeExtension),
        None => Ok(()),
    })
}

impl Integrations {
    pub fn validate(&self) -> (r: Result<(), String>)
        ensures
            same_outcome(r, integrations_check(*self)),
    {
        if let Some(docker) = &self.docker {
            docker.validate()?;
        }
        if let Some(vscode) = &self.vscode {
            validate_optional_entries(&vscode.extensions, "integrations.vscode.extensions", Rule::VsCodeExtension)?;
        }
        Ok(())
    }
}

// ------------------------------------------------------------ desktop and updates

#[derive(Debug)]
pub struct Idle {
    pub timeout: Option<String>,
    pub dim: Option<bool>,
}

#[derive(Debug)]
pub struct Gnome {
    pub extensions: Option<Vec<String>>,
    pub dock: Option<bool>,
    pub rounded_corners: Option<bool>,
}

#[derive(Debug)]
pub struct Desktop {
    pub theme: Option<Theme>,
    pub terminal: Option<String>,
    pub idle: Option<Idle>,
    pub gnome: Option<Gnome>,
}

pub open spec fn desktop_check(d: Desktop) -> Result<(), Seq<char>> {
    then(match d.terminal { Some(t) => rule_check(Rule::Executable, t@, "desktop.terminal"@), None => Ok(()) },
    then(match d.idle {
        Some(idle) => match idle.timeout {
            Some(t) => fails_at(crate::config::model::rules::duration_ok(t@), "desktop.idle.timeout"@, DURATION_RULE@),
            None => Ok(()),
        },
        None => Ok(()),
    },
    match d.gnome {
        Some(g) => optional_entries_check(g.extensions, "desktop.gnome.extensions"@, Rule::GnomeUuid),
        None => Ok(()),
    }))
}

impl Desktop {
    pub fn validate(&self) -> (r: Result<(), String>)
        ensures
            same_outcome(r, desktop_check(*self)),
    {
        if let Some(terminal) = &self.terminal {
            check_rule(Rule::Executable, terminal.as_str(), "desktop.terminal")?;
        }
        if let Some(idle) = &self.idle {
            if let Some(timeout) = &idle.timeout {
                validate_duration(timeout.as_str(), "desktop.idle.timeout")?;
            }
        }
        if let Some(gnome) = &self.gnome {
            validate_optional_entries(&gnome.extensions, "desktop.gnome.extensions", Rule::GnomeUuid)?;
        }
        Ok(())
    }
}

#[derive(Clone, Copy, Debug, PartialEq, Eq, Structural)]
pub enum AptUpdate {
    Off,
    Standard,
    Full,
}

#[derive(Debug)]
pub struct ToolUpdates {
    pub rust: Option<bool>,
    pub go: Option<bool>,
    pub node: Option<bool>,
}

#[derive(Debug)]
pub struct PackageUpdates {
    pub cargo: Option<bool>,
    pub npm: Option<bool>,
    pub direct: Option<bool>,
}

#[derive(Debug)]
pub struct Updates {
    pub apt: Option<AptUpdate>,
    pub flatpak: Option<bool>,
    pub tools: Option<ToolUpdates>,
    pub packages: Option<PackageUpdates>,
}

// ------------------------------------------------------------ the whole configuration

/// A schema 1 configuration.
#[derive(Debug)]
pub struct ConfigV1 {
    pub schema: u8,
    pub system: Option<System>,
    pub packages: Option<Packages>,
    pub tools: Option<Tools>,
    pub fonts: Option<Fonts>,
    pub dotfiles: Option<Dotfiles>,
    pub integrations: Option<Integrations>,
    pub desktop: Option<Desktop>,
    pub updates: Option<Updates>,
}

/// The distribution that the configuration names, if it names one.
pub open spec fn configured_distro(c: ConfigV1) -> Option<Seq<char>> {
    match c.system {
        Some(s) => match s.distro {
            Some(d) => distro_id(d),
            None => None,
        },
        None => None,
    }
}

pub open spec fn configured_desktop(c: ConfigV1) -> Option<Seq<char>> {
    match c.system {
        Some(s) => match s.desktop {
            Some(d) => desktop_id(d),
            None => None,
        },
        None => None,
    }
}

/// npm packages are listed and no Node version is configured.
pub open spec fn npm_without_node(c: ConfigV1) -> bool {
    (c.packages matches Some(p) && (p.npm matches Some(n) && n@.len() > 0)) && !(c.tools matches Some(t)
        && t.node is Some)
}

/// The rules of a configuration that hold on every platform, in the order
/// they are checked.
pub open spec fn config_check(c: ConfigV1) -> Result<(), Seq<char>> {
    then(match c.system { Some(s) => system_check(s), None => Ok(()) },
    then(match c.packages { Some(p) => packages_check(p, configured_distro(c)), None => Ok(()) },
    then(match c.tools { Some(t) => tools_check(t), None => Ok(()) },
    then(if npm_without_node(c) { Err("packages.npm: requires tools.node"@) } else { Ok(()) },
    then(match c.fonts { Some(f) => optional_unique_check(f.nerd, "fonts.nerd"@), None => Ok(()) },
    then(match c.dotfiles { Some(d) => dotfiles_check(d), None => Ok(()) },
    then(match c.integrations { Some(i) => integrations_check(i), None => Ok(()) },
    match c.desktop { Some(d) => desktop_check(d), None => Ok(()) })))))))
}

/// The rules of a configuration on the detected platform, in the order they
/// are checked: the configured distribution and desktop against the
/// detected ones, the detected distribution's family, the components for
/// that family, the repositories' URLs for the distribution and the direct
/// packages' selectors for the architecture.
pub open spec fn platform_check(c: ConfigV1, p: DetectedPlatform) -> Result<(), Seq<char>> {
    then(match configured_distro(c) {
        Some(id) => if id != p.distro@ {
            Err("system.distro: configured distribution "@ + debug_text(id)
                + " does not match resolved platform distribution "@ + debug_text(p.distro@))
        } else {
            Ok(())
        },
        None => Ok(()),
    },
    then(match configured_desktop(c) {
        Some(id) => if id != p.desktop@ {
            Err("system.desktop: configured desktop "@ + debug_text(id) + " does not match resolved platform desktop "@
                + debug_text(p.desktop@))
        } else {
            Ok(())
        },
        None => Ok(()),
    },
    match family_of_distro(p.distro@) {
        Err(e) => Err(e),
        Ok(upstream) => match family_named(p.upstream@) {
            Err(e) => Err(e),
            Ok(detected) => if upstream != detected {
                Err("system.distro: platform distro "@ + debug_text(p.distro@) + " does not belong to upstream family "@
                    + debug_text(p.upstream@))
            } else {
                then(match c.system {
                    Some(s) => match s.apt { Some(a) => system_apt_check(a, Some(upstream)), None => Ok(()) },
                    None => Ok(()),
                },
                match c.packages {
                    Some(pk) => then(repository_urls_check(repositories_of(pk), p.distro@),
                        native_selectors_check(directs_of(pk), p.architecture)),
                    None => Ok(()),
                })
            },
        },
    }))
}

impl ConfigV1 {
    /// Checks every rule that holds on every platform.
    pub fn validate(&self) -> (r: Result<(), String>)
        ensures
            same_outcome(r, config_check(*self)),
    {
        if let Some(system) = &self.system {
            system.validate()?;
        }
        let distro = match &self.system {
            Some(s) => match &s.distro {
                Some(d) => d.configured_id(),
                None => None,
            },
            None => None,
        };
        if let Some(packages) = &self.packages {
            packages.validate(distro)?;
        }
        if let Some(tools) = &self.tools {
            tools.validate()?;
        }
        let npm = match &self.packages {
            Some(p) => match &p.npm {
                Some(n) => n.len() > 0,
                None => false,
            },
            None => false,
        };
        let node = match &self.tools {
            Some(t) => t.node.is_some(),
            None => false,
        };
        if npm && !node {
            return Err(String::from_str("packages.npm: requires tools.node"));
        }
        if let Some(fonts) = &self.fonts {
            if let Some(nerd) = &fonts.nerd {
                validate_unique_strings(nerd, "fonts.nerd")?;
            }
        }
        if let Some(dotfiles) = &self.dotfiles {
            validate_required_unique_strings(&dotfiles.packages, "dotfiles.packages")?;
            check_entries(&dotfiles.packages, "dotfiles.packages", Rule::DirectoryName)?;
        }
        if let Some(integrations) = &self.integrations {
            integrations.validate()?;
        }
        if let Some(desktop) = &self.desktop {
            desktop.validate()?;
        }
        Ok(())
    }

    /// Checks the configuration against the detected platform.
    pub fn validate_for_platform(&self, platform: &DetectedPlatform) -> (r: Result<(), String>)
        ensures
            same_outcome(r, platform_check(*self, *platform)),
    {
        let distro = match &self.system {
            Some(s) => match &s.distro {
                Some(d) => d.configured_id(),
                None => None,
            },
            None => None,
        };
        if let Some(configured) = distro {
            if !eq_str(&chars_of(platform.distro.as_str()), configured) {
                let c = debug_str(configured);
                let d = debug_str(platform.distro.as_str());
                let mut m = concat3("system.distro: configured distribution ", c.as_str(), " does not match resolved platform distribution ");
                m.append(d.as_str());
                return Err(m);
            }
        }
        let desktop = match &self.system {
            Some(s) => match &s.desktop {
                Some(d) => d.configured_id(),
                None => None,
            },
            None => None,
        };
        if let Some(configured) = desktop {
            if !eq_str(&chars_of(platform.desktop.as_str()), configured) {
                let c = debug_str(configured);
                let d = debug_str(platform.desktop.as_str());
                let mut m = concat3("system.desktop: configured desktop ", c.as_str(), " does not match resolved platform desktop ");
                m.append(d.as_str());
                return Err(m);
            }
        }
        let upstream = upstream_for_distro(platform.distro.as_str())?;
        let detected = upstream_from_id(platform.upstream.as_str())?;
        if upstream != detected {
            let d = debug_str(platform.distro.as_str());
            let u = debug_str(platform.upstream.as_str());
            let mut m = concat3("system.distro: platform distro ", d.as_str(), " does not belong to upstream family ");
            m.append(u.as_str());
            return Err(m);
        }
        if let Some(system) = &self.system {
            if let Some(apt) = &system.apt {
                apt.validate(Some(upstream))?;
            }
        }
        if let Some(packages) = &self.packages {
            packages.validate_repository_urls_for_distro(platform.distro.as_str())?;
            packages.validate_native_selectors(platform.architecture)?;
        }
        Ok(())
    }
}

} // verus!
