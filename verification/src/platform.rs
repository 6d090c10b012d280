//! The host platform as the configuration rules see it, and the official
//! APT base sources that a managed platform publishes.
use vstd::prelude::*;
use crate::text::{
    all_chars, chars_of, concat, digit, eq_chars, eq_str, is_digit, is_lower, join, join_strings,
    lower, message, string_views, views,
};

verus! {

pub const UNSUPPORTED_ARCHITECTURE: &'static str = "architecture: unsupported architecture";

/// A canonical CPU architecture.
#[derive(Clone, Copy, Debug, PartialEq, Eq, Structural)]
pub enum Architecture {
    Amd64,
    Arm64,
    Arm32,
    Riscv64,
}

pub open spec fn canonical_name(a: Architecture) -> Seq<char> {
    match a {
        Architecture::Amd64 => "amd64"@,
        Architecture::Arm64 => "arm64"@,
        Architecture::Arm32 => "arm32"@,
        Architecture::Riscv64 => "riscv64"@,
    }
}

pub open spec fn debian_name(a: Architecture) -> Seq<char> {
    match a {
        Architecture::Amd64 => "amd64"@,
        Architecture::Arm64 => "arm64"@,
        Architecture::Arm32 => "armhf"@,
        Architecture::Riscv64 => "riscv64"@,
    }
}

/// The architecture whose canonical name is `value`, if any.
pub open spec fn architecture_named(value: Seq<char>) -> Option<Architecture> {
    if value == "amd64"@ {
        Some(Architecture::Amd64)
    } else if value == "arm64"@ {
        Some(Architecture::Arm64)
    } else if value == "arm32"@ {
        Some(Architecture::Arm32)
    } else if value == "riscv64"@ {
        Some(Architecture::Riscv64)
    } else {
        None
    }
}

impl Architecture {
    /// The configuration's name of the architecture.
    pub fn canonical(self) -> (r: &'static str)
        ensures
            r@ == canonical_name(self),
    {
        match self {
            Architecture::Amd64 => "amd64",
            Architecture::Arm64 => "arm64",
            Architecture::Arm32 => "arm32",
            Architecture::Riscv64 => "riscv64",
        }
    }

    /// Debian's name of the architecture.
    pub fn debian(self) -> (r: &'static str)
        ensures
            r@ == debian_name(self),
    {
        match self {
            Architecture::Amd64 => "amd64",
            Architecture::Arm64 => "arm64",
            Architecture::Arm32 => "armhf",
            Architecture::Riscv64 => "riscv64",
        }
    }

    /// The architecture with canonical name `value`.
    pub fn normalize(value: &str) -> (r: Result<Architecture, String>)
        ensures
            match architecture_named(value@) {
                Some(a) => r == Ok::<Architecture, String>(a),
                None => r matches Err(e) && e@ == UNSUPPORTED_ARCHITECTURE@,
            },
    {
        let v = chars_of(value);
        if eq_str(&v, "amd64") {
            Ok(Architecture::Amd64)
        } else if eq_str(&v, "arm64") {
            Ok(Architecture::Arm64)
        } else if eq_str(&v, "arm32") {
            Ok(Architecture::Arm32)
        } else if eq_str(&v, "riscv64") {
            Ok(Architecture::Riscv64)
        } else {
            Err(UNSUPPORTED_ARCHITECTURE.to_owned())
        }
    }
}

/// The canonical architecture names that configuration maps are keyed by.
pub type Arch = Architecture;

/// A supported Linux distribution.
#[derive(Clone, Copy, Debug, PartialEq, Eq, Structural)]
pub enum Distro {
    Ubuntu,
    LinuxMint,
    Pop,
    Debian,
}

/// The upstream family that a distribution is based on.
#[derive(Clone, Copy, Debug, PartialEq, Eq, Structural)]
pub enum Family {
    Ubuntu,
    Debian,
}

/// The operating system of the host, with the distribution and its family on Linux.
#[derive(Clone, Copy, Debug, PartialEq, Eq, Structural)]
pub enum PlatformIdentity {
    Linux { distro: Distro, family: Family },
    Macos,
}

/// The desktop environment of the host.
#[derive(Clone, Copy, Debug, PartialEq, Eq, Structural)]
pub enum DesktopKind {
    Headless,
    Gnome,
    Cinnamon,
}

pub open spec fn desktop_name(d: DesktopKind) -> Seq<char> {
    match d {
        DesktopKind::Headless => "none"@,
        DesktopKind::Gnome => "gnome"@,
        DesktopKind::Cinnamon => "cinnamon"@,
    }
}

impl DesktopKind {
    /// The name by which the desktop is reported.
    pub fn as_str(self) -> (r: &'static str)
        ensures
            r@ == desktop_name(self),
    {
        match self {
            DesktopKind::Headless => "none",
            DesktopKind::Gnome => "gnome",
            DesktopKind::Cinnamon => "cinnamon",
        }
    }
}

/// The detected host: its identity, desktop, architecture, and the release
/// codenames of the distribution itself and of its upstream base.
#[derive(Debug)]
pub struct Platform {
    pub identity: PlatformIdentity,
    pub desktop: DesktopKind,
    pub arch: Arch,
    pub distro_codename: String,
    pub base_codename: String,
}

/// One deb822 stanza of the managed base sources.
#[derive(Debug)]
pub struct AptStanza {
    pub uris: Vec<String>,
    pub suites: Vec<String>,
    pub components: Vec<String>,
    pub signed_by: String,
}

pub struct AptStanzaView {
    pub uris: Seq<Seq<char>>,
    pub suites: Seq<Seq<char>>,
    pub components: Seq<Seq<char>>,
    pub signed_by: Seq<char>,
}

impl View for AptStanza {
    type V = AptStanzaView;

    open spec fn view(&self) -> AptStanzaView {
        AptStanzaView {
            uris: string_views(self.uris@),
            suites: string_views(self.suites@),
            components: string_views(self.components@),
            signed_by: self.signed_by@,
        }
    }
}

/// The official base sources that a managed APT policy owns.
#[derive(Debug)]
pub struct ManagedAptSources {
    pub distro: String,
    pub release: String,
    pub architecture: Architecture,
    pub components: Vec<String>,
    pub stanzas: Vec<AptStanza>,
}

pub struct ManagedAptSourcesView {
    pub distro: Seq<char>,
    pub release: Seq<char>,
    pub architecture: Architecture,
    pub components: Seq<Seq<char>>,
    pub stanzas: Seq<AptStanzaView>,
}

impl View for ManagedAptSources {
    type V = ManagedAptSourcesView;

    open spec fn view(&self) -> ManagedAptSourcesView {
        ManagedAptSourcesView {
            distro: self.distro@,
            release: self.release@,
            architecture: self.architecture,
            components: string_views(self.components@),
            stanzas: self.stanzas@.map_values(|s: AptStanza| s@),
        }
    }
}

/// The components that a distribution family publishes.
pub open spec fn family_component(distro: Seq<char>, c: Seq<char>) -> bool {
    if distro == "ubuntu"@ {
        c == "main"@ || c == "restricted"@ || c == "universe"@ || c == "multiverse"@
    } else {
        c == "main"@ || c == "contrib"@ || c == "non-free"@ || c == "non-free-firmware"@
    }
}

/// A release codename: one lowercase APT token.
pub open spec fn release_token(r: Seq<char>) -> bool {
    r.len() > 0 && (is_lower(r[0]) || is_digit(r[0])) && forall|i: int|
        0 <= i < r.len() ==> (is_lower(#[trigger] r[i]) || is_digit(r[i]) || r[i] == '.' || r[i]
            == '_' || r[i] == '+' || r[i] == '-')
}

pub open spec fn distinct(s: Seq<Seq<char>>) -> bool {
    forall|i: int, j: int| 0 <= i < j < s.len() ==> s[i] != s[j]
}

/// Whether a managed policy exists for this distribution, release and components.
pub open spec fn managed_sources_valid(
    distro: Seq<char>,
    release: Seq<char>,
    components: Seq<Seq<char>>,
) -> bool {
    &&& (distro == "ubuntu"@ || distro == "debian"@ || distro == "kali"@)
    &&& release_token(release)
    &&& (distro == "kali"@ ==> release == "kali-rolling"@)
    &&& components.len() > 0
    &&& distinct(components)
    &&& forall|i: int| 0 <= i < components.len() ==> family_component(distro, #[trigger] components[i])
}

/// Why no managed policy exists, where `managed_sources_valid` fails: the
/// first of its conditions that does not hold.
pub open spec fn managed_sources_error(
    distro: Seq<char>,
    release: Seq<char>,
    components: Seq<Seq<char>>,
) -> Seq<char> {
    if !(distro == "ubuntu"@ || distro == "debian"@ || distro == "kali"@) {
        "managed APT sources"@ + ": "@ + "unsupported distribution"@
    } else if !release_token(release) || (distro == "kali"@ && release != "kali-rolling"@) {
        "managed APT sources"@ + ": "@ + "invalid release codename"@
    } else if components.len() == 0 || !distinct(components) {
        "managed APT sources"@ + ": "@ + "components must be a non-empty unique sequence"@
    } else {
        "managed APT sources"@ + ": "@ + "component is not published by the distribution"@
    }
}

pub open spec fn suite(release: Seq<char>, pocket: Seq<char>) -> Seq<char> {
    release + pocket
}

pub open spec fn ubuntu_archive(a: Architecture) -> Seq<char> {
    if a == Architecture::Amd64 {
        "http://archive.ubuntu.com/ubuntu"@
    } else {
        "http://ports.ubuntu.com/ubuntu-ports"@
    }
}

pub open spec fn ubuntu_security(a: Architecture) -> Seq<char> {
    if a == Architecture::Amd64 {
        "http://security.ubuntu.com/ubuntu"@
    } else {
        "http://ports.ubuntu.com/ubuntu-ports"@
    }
}

/// The stanzas of the managed base sources.
pub open spec fn managed_stanzas(
    distro: Seq<char>,
    release: Seq<char>,
    a: Architecture,
    components: Seq<Seq<char>>,
) -> Seq<AptStanzaView> {
    if distro == "ubuntu"@ {
        let key = "/usr/share/keyrings/ubuntu-archive-keyring.gpg"@;
        seq![
            AptStanzaView {
                uris: seq![ubuntu_archive(a)],
                suites: seq![release, release + "-updates"@, release + "-backports"@],
                components: components,
                signed_by: key,
            },
            AptStanzaView {
                uris: seq![ubuntu_security(a)],
                suites: seq![release + "-security"@],
                components: components,
                signed_by: key,
            },
        ]
    } else if distro == "debian"@ {
        let key = "/usr/share/keyrings/debian-archive-keyring.gpg"@;
        seq![
            AptStanzaView {
                uris: seq!["http://deb.debian.org/debian"@],
                suites: seq![release, release + "-updates"@],
                components: components,
                signed_by: key,
            },
            AptStanzaView {
                uris: seq!["http://deb.debian.org/debian-security"@],
                suites: seq![release + "-security"@],
                components: components,
                signed_by: key,
            },
        ]
    } else {
        seq![
            AptStanzaView {
                uris: seq!["http://http.kali.org/kali"@],
                suites: seq![release],
                components: components,
                signed_by: "/usr/share/keyrings/kali-archive-keyring.gpg"@,
            },
        ]
    }
}

fn strings_of(v: &Vec<String>) -> (r: Vec<Vec<char>>)
    ensures
        views(r@) == string_views(v@),
{
    let mut r: Vec<Vec<char>> = Vec::new();
    let mut i: usize = 0;
    while i < v.len()
        invariant
            i <= v@.len(),
            r@.len() == i,
            forall|k: int| 0 <= k < i ==> #[trigger] r@[k]@ == v@[k]@,
        decreases v@.len() - i,
    {
        let c = chars_of(v[i].as_str());
        r.push(c);
        i += 1;
    }
    assert(views(r@) =~= string_views(v@));
    r
}

/// Are the character sequences of `v` pairwise distinct?
pub fn distinct_chars(v: &Vec<Vec<char>>) -> (r: bool)
    ensures
        r == distinct(views(v@)),
{
    let mut i: usize = 0;
    while i < v.len()
        invariant
            i <= v@.len(),
            forall|a: int, b: int| 0 <= a < b < v@.len() && a < i ==> v@[a]@ != v@[b]@,
        decreases v@.len() - i,
    {
        let mut j: usize = i + 1;
        while j < v.len()
            invariant
                i < v@.len(),
                i + 1 <= j <= v@.len(),
                forall|a: int, b: int| 0 <= a < b < v@.len() && a < i ==> v@[a]@ != v@[b]@,
                forall|b: int| i < b < j ==> v@[i as int]@ != v@[b]@,
            decreases v@.len() - j,
        {
            if eq_chars(&v[i], &v[j]) {
                assert(views(v@)[i as int] == views(v@)[j as int]);
                return false;
            }
            j += 1;
        }
        i += 1;
    }
    true
}

fn release_token_ok(r: &[char]) -> (b: bool)
    ensures
        b == release_token(r@),
{
    if r.len() == 0 || !(lower(r[0]) || digit(r[0])) {
        return false;
    }
    let token_char = |c: char| -> (b: bool)
        ensures
            b == (is_lower(c) || is_digit(c) || c == '.' || c == '_' || c == '+' || c == '-'),
        { lower(c) || digit(c) || c == '.' || c == '_' || c == '+' || c == '-' };
    all_chars(
        r,
        token_char,
        Ghost(
            |c: char|
                is_lower(c) || is_digit(c) || c == '.' || c == '_' || c == '+' || c == '-',
        ),
    )
}

fn family_component_ok(distro: &[char], c: &[char]) -> (b: bool)
    ensures
        b == family_component(distro@, c@),
{
    if eq_str(distro, "ubuntu") {
        eq_str(c, "main") || eq_str(c, "restricted") || eq_str(c, "universe") || eq_str(
            c,
            "multiverse",
        )
    } else {
        eq_str(c, "main") || eq_str(c, "contrib") || eq_str(c, "non-free") || eq_str(
            c,
            "non-free-firmware",
        )
    }
}

fn copy_strings(v: &Vec<String>) -> (r: Vec<String>)
    ensures
        string_views(r@) == string_views(v@),
{
    let mut r: Vec<String> = Vec::new();
    let mut i: usize = 0;
    while i < v.len()
        invariant
            i <= v@.len(),
            r@.len() == i,
            forall|k: int| 0 <= k < i ==> #[trigger] r@[k]@ == v@[k]@,
        decreases v@.len() - i,
    {
        let s = v[i].clone();
        r.push(s);
        i += 1;
    }
    assert(string_views(r@) =~= string_views(v@));
    r
}

fn stanza(uris: Vec<String>, suites: Vec<String>, components: &Vec<String>, signed_by: &str) -> (r: AptStanza)
    ensures
        r@ == (AptStanzaView {
            uris: string_views(uris@),
            suites: string_views(suites@),
            components: string_views(components@),
            signed_by: signed_by@,
        }),
{
    let components = copy_strings(components);
    AptStanza { uris, suites, components, signed_by: signed_by.to_owned() }
}

/// The managed base sources of `distro` at `release` for `architecture`
/// with `components`, or an error where no such policy exists.
pub fn managed_apt_sources(
    distro: &str,
    release: &str,
    architecture: Architecture,
    components: &Vec<String>,
) -> (r: Result<ManagedAptSources, String>)
    ensures
        r is Ok <==> managed_sources_valid(distro@, release@, string_views(components@)),
        r matches Err(e) ==> e@ == managed_sources_error(distro@, release@, string_views(components@)),
        r matches Ok(p) ==> p@ == (ManagedAptSourcesView {
            distro: distro@,
            release: release@,
            architecture: architecture,
            components: string_views(components@),
            stanzas: managed_stanzas(distro@, release@, architecture, string_views(components@)),
        }),
{
    let d = chars_of(distro);
    let rel = chars_of(release);
    let comps = strings_of(components);
    let ubuntu = eq_str(&d, "ubuntu");
    let debian = eq_str(&d, "debian");
    let kali = eq_str(&d, "kali");
    if !(ubuntu || debian || kali) {
        return Err(message("managed APT sources", "unsupported distribution"));
    }
    if !release_token_ok(&rel) || (kali && !eq_str(&rel, "kali-rolling")) {
        return Err(message("managed APT sources", "invalid release codename"));
    }
    if comps.len() == 0 || !distinct_chars(&comps) {
        return Err(message("managed APT sources", "components must be a non-empty unique sequence"));
    }
    let mut i: usize = 0;
    while i < comps.len()
        invariant
            i <= comps@.len(),
            d@ == distro@,
            views(comps@) == string_views(components@),
            distro@ == "ubuntu"@ || distro@ == "debian"@ || distro@ == "kali"@,
            release_token(release@),
            !(distro@ == "kali"@ && release@ != "kali-rolling"@),
            string_views(components@).len() > 0,
            distinct(string_views(components@)),
            forall|k: int| 0 <= k < i ==> family_component(d@, #[trigger] views(comps@)[k]),
        decreases comps@.len() - i,
    {
        if !family_component_ok(&d, &comps[i]) {
            assert(!family_component(d@, views(comps@)[i as int]));
            assert(string_views(components@)[i as int] == views(comps@)[i as int]);
            return Err(message("managed APT sources", "component is not published by the distribution"));
        }
        i += 1;
    }
    let ghost cv = string_views(components@);
    let mut stanzas: Vec<AptStanza> = Vec::new();
    if ubuntu {
        let key = "/usr/share/keyrings/ubuntu-archive-keyring.gpg";
        let (archive, security) = if architecture == Architecture::Amd64 {
            ("http://archive.ubuntu.com/ubuntu", "http://security.ubuntu.com/ubuntu")
        } else {
            ("http://ports.ubuntu.com/ubuntu-ports", "http://ports.ubuntu.com/ubuntu-ports")
        };
        let suites = vec![
            release.to_owned(),
            concat(release, "-updates"),
            concat(release, "-backports"),
        ];
        let first = stanza(vec![archive.to_owned()], suites, components, key);
        let second = stanza(vec![security.to_owned()], vec![concat(release, "-security")], components, key);
        assert(first@.uris =~= seq![ubuntu_archive(architecture)]);
        assert(first@.suites =~= seq![release@, release@ + "-updates"@, release@ + "-backports"@]);
        assert(second@.uris =~= seq![ubuntu_security(architecture)]);
        assert(second@.suites =~= seq![release@ + "-security"@]);
        stanzas.push(first);
        stanzas.push(second);
    } else if debian {
        let key = "/usr/share/keyrings/debian-archive-keyring.gpg";
        let first = stanza(
            vec!["http://deb.debian.org/debian".to_owned()],
            vec![release.to_owned(), concat(release, "-updates")],
            components,
            key,
        );
        let second = stanza(
            vec!["http://deb.debian.org/debian-security".to_owned()],
            vec![concat(release, "-security")],
            components,
            key,
        );
        assert(first@.uris =~= seq!["http://deb.debian.org/debian"@]);
        assert(first@.suites =~= seq![release@, release@ + "-updates"@]);
        assert(second@.uris =~= seq!["http://deb.debian.org/debian-security"@]);
        assert(second@.suites =~= seq![release@ + "-security"@]);
        stanzas.push(first);
        stanzas.push(second);
    } else {
        let only = stanza(
            vec!["http://http.kali.org/kali".to_owned()],
            vec![release.to_owned()],
            components,
            "/usr/share/keyrings/kali-archive-keyring.gpg",
        );
        assert(only@.uris =~= seq!["http://http.kali.org/kali"@]);
        assert(only@.suites =~= seq![release@]);
        stanzas.push(only);
    }
    let policy = ManagedAptSources {
        distro: distro.to_owned(),
        release: release.to_owned(),
        architecture,
        components: copy_strings(components),
        stanzas,
    };
    assert(policy@.stanzas =~= managed_stanzas(distro@, release@, architecture, cv));
    Ok(policy)
}

pub open spec fn stanza_text(s: AptStanzaView) -> Seq<char> {
    "Types: deb\nURIs: "@ + join(s.uris, " "@) + "\nSuites: "@ + join(s.suites, " "@)
        + "\nComponents: "@ + join(s.components, " "@) + "\nSigned-By: "@ + s.signed_by + "\n"@
}

pub open spec fn deb822_text(stanzas: Seq<AptStanzaView>) -> Seq<char> {
    join(stanzas.map_values(|s: AptStanzaView| stanza_text(s)), "\n"@)
}

impl AptStanza {
    pub fn render(&self) -> (r: String)
        ensures
            r@ == stanza_text(self@),
    {
        let mut r = "Types: deb\nURIs: ".to_owned();
        let uris = join_strings(&self.uris, " ");
        r.append(uris.as_str());
        r.append("\nSuites: ");
        let suites = join_strings(&self.suites, " ");
        r.append(suites.as_str());
        r.append("\nComponents: ");
        let components = join_strings(&self.components, " ");
        r.append(components.as_str());
        r.append("\nSigned-By: ");
        r.append(self.signed_by.as_str());
        r.append("\n");
        r
    }
}

impl ManagedAptSources {
    /// The deb822 text of the owned source file: the stanzas separated by blank lines.
    pub fn render_deb822(&self) -> (r: String)
        ensures
            r@ == deb822_text(self@.stanzas),
    {
        let mut texts: Vec<String> = Vec::new();
        let mut i: usize = 0;
        while i < self.stanzas.len()
            invariant
                i <= self.stanzas@.len(),
                texts@.len() == i,
                forall|k: int| 0 <= k < i ==> #[trigger] texts@[k]@ == stanza_text(self.stanzas@[k]@),
            decreases self.stanzas@.len() - i,
        {
            let t = self.stanzas[i].render();
            texts.push(t);
            i += 1;
        }
        assert(string_views(texts@) =~= self@.stanzas.map_values(|s: AptStanzaView| stanza_text(s)));
        join_strings(&texts, "\n")
    }
}

} // verus!
