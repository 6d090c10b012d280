use cozydot::config::model::preflight::{
    check_yaml_events, classify_event, classify_token, preflight_document, reject_nulls, reject_yaml_events,
    reject_yaml_tokens, YamlEventKind, YamlTokenKind,
    UNSUPPORTED_FEATURE, YamlNode,
};
use cozydot::config::model::rules::{
    validate_apt_token, validate_definition_name, validate_docker_size, validate_duration,
    validate_flatpak_id, validate_github_repository, validate_gnome_uuid, validate_npm_package,
    validate_numeric_version, validate_repository_path, validate_rust_selector, validate_sha256,
    validate_vscode_id, validate_wildcard,
};
use cozydot::config::model::{
    select_distro_map, AptComponent, AptPackages, AptToken, AssetMap, AssetSelector, BinaryFormat,
    BinaryPackage, BinarySource, Config, ConfigVersion, DetectedPlatform, Desktop, DesktopKind,
    Distro, DistroMapKey, Family, OfficialSources, Packages, PlatformRequirements, Repository,
    SourceMode, System, SystemApt, Tools, Updates, ToolUpdates,
};
use cozydot::domain::HttpsUrl;
use cozydot::platform::Architecture;

fn url(text: &str) -> HttpsUrl {
    HttpsUrl::parse(text).unwrap()
}

fn empty_config() -> Config {
    Config {
        version: ConfigVersion,
        system: None,
        packages: None,
        tools: None,
        fonts: None,
        dotfiles: None,
        integrations: None,
        desktop: None,
        updates: None,
    }
}

fn repository(name: &str) -> Repository {
    Repository {
        name: name.into(),
        key: url("https://example.com/key"),
        urls: vec![(DistroMapKey::Default, url("https://example.com/repo"))],
        suite: Some("stable".into()),
        components: Some(vec![AptToken::new("main".into())]),
        path: None,
        packages: vec!["tool".into()],
    }
}

fn ubuntu_gnome() -> DetectedPlatform {
    DetectedPlatform {
        distro: "ubuntu".into(),
        upstream: "ubuntu".into(),
        desktop: "gnome".into(),
        architecture: Architecture::Amd64,
        distro_codename: "noble".into(),
        base_codename: "noble".into(),
    }
}

#[test]
fn version_accepts_only_one_zero_zero() {
    assert!(ConfigVersion::parse("1.0.0").is_ok());
    assert_eq!(
        ConfigVersion::parse("2.0.0").unwrap_err(),
        "unsupported configuration version \"2.0.0\"; only version \"1.0.0\" is supported"
    );
}

#[test]
fn value_rules_accept_and_reject() {
    validate_definition_name("JetBrains-Mono_2.0", "fonts.nerd[0]").unwrap();
    assert_eq!(
        validate_definition_name("-x", "fonts.nerd[0]").unwrap_err(),
        "fonts.nerd[0]: invalid value \"-x\"; must start and end with an ASCII alphanumeric and contain only ASCII alphanumerics, '.', '_', or '-'"
    );
    validate_npm_package("@scope/tool", "p").unwrap();
    validate_npm_package("opencode-ai", "p").unwrap();
    for bad in ["@scope", "@a/b/c", "Tool", "a/b", "", "@/x"] {
        assert!(validate_npm_package(bad, "p").is_err(), "{bad:?}");
    }
    validate_flatpak_id("org.gnome.Maps", "p").unwrap();
    assert!(validate_flatpak_id("org.gnome", "p").is_err());
    assert!(validate_flatpak_id("org.1gnome.Maps", "p").is_err());
    validate_vscode_id("rust-lang.rust-analyzer", "p").unwrap();
    assert!(validate_vscode_id("Rust.analyzer", "p").is_err());
    validate_gnome_uuid("dash-to-dock@micxgx.gmail.com", "p").unwrap();
    assert!(validate_gnome_uuid("a@b@c", "p").is_err());
    validate_github_repository("cli/cli", "p").unwrap();
    assert!(validate_github_repository("-cli/cli", "p").is_err());
    assert!(validate_github_repository("cli/..", "p").is_err());
    validate_apt_token("*", "p").unwrap();
    assert_eq!(
        validate_apt_token("Main", "p").unwrap_err(),
        "p: invalid APT token \"Main\"; must be one lowercase token or the complete literal '*'"
    );
    validate_repository_path("./", "p").unwrap();
    validate_repository_path("dists/stable/", "p").unwrap();
    assert_eq!(
        validate_repository_path("dists/../", "p").unwrap_err(),
        "p: invalid repository path \"dists/../\"; contains invalid relative path segment \"..\""
    );
    assert!(validate_repository_path("/abs/", "p").is_err());
    validate_wildcard("*linux-amd64-*.deb", "p").unwrap();
    assert!(validate_wildcard("plain.deb", "p").is_err());
    assert!(validate_wildcard("dir/*.deb", "p").is_err());
    validate_sha256(&"a".repeat(64), "p").unwrap();
    assert!(validate_sha256(&"A".repeat(64), "p").is_err());
    validate_duration("15m", "p").unwrap();
    assert!(validate_duration("m", "p").is_err());
    validate_docker_size("10m", "p").unwrap();
    assert_eq!(
        validate_docker_size("00k", "p").unwrap_err(),
        "p: invalid Docker size \"00k\"; must be a positive decimal integer followed by k, m, or g"
    );
}

#[test]
fn rust_selectors_accept_channels_dated_nightlies_and_versions() {
    for ok in ["stable", "beta", "nightly", "nightly-2024-02-29", "1.85", "1.85.0"] {
        validate_rust_selector(ok, "tools.rust").unwrap();
    }
    for bad in ["nightly-2023-02-29", "nightly-2024-13-01", "nightly-0000-01-01", "1", "1.2.3.4", "1..2"] {
        assert!(validate_rust_selector(bad, "tools.rust").is_err(), "{bad:?}");
    }
    assert_eq!(
        validate_numeric_version("x", "tools.go", 2, 3).unwrap_err(),
        "tools.go: invalid selector \"x\"; expected 2 to 3 numeric components"
    );
}

#[test]
fn repository_stem_sanitizes_the_name() {
    assert_eq!(repository("--GitHub__CLI!!").filename_stem(), "github-cli");
    assert_eq!(repository("docker").filename_stem(), "docker");
}

#[test]
fn distro_entry_precedes_family_and_default() {
    let urls = vec![(DistroMapKey::Default, 0), (DistroMapKey::Ubuntu, 1)];
    assert_eq!(select_distro_map(&urls, Distro::Ubuntu, Family::Ubuntu), Some((DistroMapKey::Ubuntu, 1)));
    assert_eq!(select_distro_map(&urls, Distro::Pop, Family::Ubuntu), Some((DistroMapKey::Ubuntu, 1)));
    assert_eq!(select_distro_map(&urls, Distro::Debian, Family::Debian), Some((DistroMapKey::Default, 0)));
    let none: Vec<(DistroMapKey, u8)> = vec![(DistroMapKey::Debian, 0)];
    assert_eq!(select_distro_map(&none, Distro::Ubuntu, Family::Ubuntu), None);
}

#[test]
fn empty_mappings_and_redundant_flags_are_rejected() {
    let mut config = empty_config();
    config.system = Some(System { require: None, ensure_admin: None, apt: None, ubuntu: None });
    assert_eq!(
        config.validate().unwrap_err(),
        "system: must contain at least one effective child; omit the mapping instead"
    );
    config.system = Some(System { require: None, ensure_admin: Some(false), apt: None, ubuntu: None });
    assert_eq!(
        config.validate().unwrap_err(),
        "system.ensure_admin: false is redundant and invalid; omit the field instead"
    );
    config.system = Some(System {
        require: Some(PlatformRequirements { distros: Some(vec![Distro::Ubuntu, Distro::Ubuntu]), desktops: None }),
        ensure_admin: None,
        apt: None,
        ubuntu: None,
    });
    assert_eq!(config.validate().unwrap_err(), "system.require.distros[1]: duplicate value Ubuntu");
}

#[test]
fn managed_sources_need_components_and_preserve_forbids_them() {
    let mut config = empty_config();
    let apt = |sources| SystemApt { sources: Some(sources), unattended_upgrades: None };
    config.system = Some(System {
        require: None,
        ensure_admin: None,
        apt: Some(apt(OfficialSources { mode: SourceMode::Managed, components: None })),
        ubuntu: None,
    });
    assert_eq!(
        config.validate().unwrap_err(),
        "system.apt.sources.components: required when mode is managed"
    );
    config.system = Some(System {
        require: None,
        ensure_admin: None,
        apt: Some(apt(OfficialSources {
            mode: SourceMode::Managed,
            components: Some(vec![(DistroMapKey::Ubuntu, vec![AptComponent::Main, AptComponent::Main])]),
        })),
        ubuntu: None,
    });
    assert_eq!(
        config.validate().unwrap_err(),
        "system.apt.sources.components.ubuntu[1]: duplicate value Main"
    );
    config.system = Some(System {
        require: None,
        ensure_admin: None,
        apt: Some(apt(OfficialSources {
            mode: SourceMode::Managed,
            components: Some(vec![(DistroMapKey::Ubuntu, vec![AptComponent::Main, AptComponent::Universe])]),
        })),
        ubuntu: None,
    });
    config.validate().unwrap();
    config.validate_for_platform(&ubuntu_gnome()).unwrap();
    let mut debian = ubuntu_gnome();
    debian.distro = "debian".into();
    debian.upstream = "debian".into();
    debian.distro_codename = "trixie".into();
    assert_eq!(
        config.validate_for_platform(&debian).unwrap_err(),
        "system.apt.sources.components: no entry for distribution \"debian\", upstream \"debian\", or default"
    );
}

#[test]
fn apt_packages_reject_duplicate_ownership_and_conflicting_removals() {
    let mut config = empty_config();
    let mut second = repository("Other");
    second.packages = vec!["tool".into()];
    config.packages = Some(Packages {
        apt: Some(AptPackages { remove: None, install: None, repositories: Some(vec![repository("first"), second]) }),
        flatpak: None,
        cargo: None,
        npm: None,
        binaries: None,
    });
    assert_eq!(
        config.validate().unwrap_err(),
        "packages.apt.repositories[1].packages[0]: duplicate APT installation ownership for \"tool\""
    );
    config.packages = Some(Packages {
        apt: Some(AptPackages {
            remove: Some(vec!["tool".into()]),
            install: None,
            repositories: Some(vec![repository("first")]),
        }),
        flatpak: None,
        cargo: None,
        npm: None,
        binaries: None,
    });
    assert_eq!(
        config.validate().unwrap_err(),
        "packages.apt.remove[0]: package \"tool\" is also configured for installation"
    );
    config.packages = Some(Packages {
        apt: Some(AptPackages {
            remove: None,
            install: None,
            repositories: Some(vec![repository("GitHub_CLI"), repository("github-cli")]),
        }),
        flatpak: None,
        cargo: None,
        npm: None,
        binaries: None,
    });
    let error = config.validate().unwrap_err();
    assert!(error.starts_with("packages.apt.repositories[1]"), "{error}");
}

fn github_binary(name: &str, command: &str) -> BinaryPackage {
    BinaryPackage {
        name: name.into(),
        format: BinaryFormat::Deb,
        commands: vec![command.into()],
        source: BinarySource::Github {
            repository: "cli/cli".into(),
            assets: AssetMap {
                amd64: Some(AssetSelector { pattern: "gh_*_linux_amd64.deb".into(), exclude: None, sha256: None }),
                arm64: None,
                arm32: None,
                riscv64: None,
            },
        },
    }
}

#[test]
fn binaries_claim_commands_once_and_need_the_native_architecture() {
    let mut config = empty_config();
    config.packages = Some(Packages {
        apt: None,
        flatpak: None,
        cargo: None,
        npm: None,
        binaries: Some(vec![github_binary("gh", "gh"), github_binary("gh2", "gh")]),
    });
    assert_eq!(
        config.validate().unwrap_err(),
        "packages.binaries[1].commands[0]: command \"gh\" is already claimed by packages.binaries[0].commands[0]"
    );
    config.packages = Some(Packages {
        apt: None,
        flatpak: None,
        cargo: None,
        npm: None,
        binaries: Some(vec![github_binary("gh", "gh")]),
    });
    config.validate_for_platform(&ubuntu_gnome()).unwrap();
    let mut arm = ubuntu_gnome();
    arm.architecture = Architecture::Arm64;
    assert_eq!(
        config.validate_for_platform(&arm).unwrap_err(),
        "packages.binaries[0].source.arm64: missing native architecture selector"
    );
}

#[test]
fn cross_section_requirements_are_enforced() {
    let mut config = empty_config();
    config.packages = Some(Packages {
        apt: None,
        flatpak: None,
        cargo: Some(vec!["bat".into()]),
        npm: None,
        binaries: None,
    });
    assert_eq!(config.validate().unwrap_err(), "packages.cargo: requires tools.rust");
    config.tools = Some(Tools { rust: Some("1.85".into()), go: None, node: None, python: None });
    config.validate().unwrap();
    config.updates = Some(Updates {
        apt: None,
        flatpak: None,
        tools: Some(ToolUpdates { rust: Some(true), go: None, node: None }),
        packages: None,
        fonts: None,
    });
    assert_eq!(
        config.validate().unwrap_err(),
        "updates.tools.rust: requires a configured moving Rust selector"
    );
}

#[test]
fn platform_identity_and_desktop_are_checked() {
    let mut config = empty_config();
    config.desktop = Some(Desktop { theme: None, terminal: Some("kitty".into()), idle: None, gnome: None });
    config.validate_for_platform(&ubuntu_gnome()).unwrap();
    let mut headless = ubuntu_gnome();
    headless.desktop = "none".into();
    assert_eq!(
        config.validate_for_platform(&headless).unwrap_err(),
        "desktop: theme, terminal, and idle settings require GNOME or Cinnamon; detected \"none\""
    );
    let mut odd = ubuntu_gnome();
    odd.upstream = "debian".into();
    assert_eq!(
        config.validate_for_platform(&odd).unwrap_err(),
        "system.require.distros: detected distribution \"ubuntu\" is inconsistent with upstream family \"debian\""
    );
    config.system = Some(System {
        require: Some(PlatformRequirements { distros: None, desktops: Some(vec![DesktopKind::Cinnamon]) }),
        ensure_admin: None,
        apt: None,
        ubuntu: None,
    });
    assert_eq!(
        config.validate_for_platform(&ubuntu_gnome()).unwrap_err(),
        "system.require.desktops: detected desktop \"gnome\" is not allowed"
    );
}

#[test]
fn yaml_features_are_rejected_at_their_position() {
    reject_yaml_tokens("version: \"1.0.0\"\n", UNSUPPORTED_FEATURE).unwrap();
    assert_eq!(
        reject_yaml_tokens("a: &x 1\n", UNSUPPORTED_FEATURE).unwrap_err(),
        "line 2, column 4: YAML anchors are not supported by configuration version 1.0.0"
    );
    assert!(reject_yaml_tokens("a: !!str 1\n", UNSUPPORTED_FEATURE).unwrap_err().contains("YAML tags"));
    let events = vec![
        (YamlEventKind::Other, 0, 0),
        (YamlEventKind::DocumentStart, 0, 0),
        (YamlEventKind::Other, 0, 0),
        (YamlEventKind::DocumentStart, 2, 0),
    ];
    assert_eq!(
        check_yaml_events(&events, Ok(()), UNSUPPORTED_FEATURE).unwrap_err(),
        "line 3, column 1: multiple YAML documents are not supported by configuration version 1.0.0"
    );
    assert_eq!(
        check_yaml_events(&events, Err("bad".into()), UNSUPPORTED_FEATURE).unwrap_err(),
        "parse YAML extension preflight: bad"
    );
}

#[test]
fn preflight_requires_the_version_and_rejects_nulls() {
    let doc = |entries: Vec<(Option<String>, YamlNode)>| YamlNode::Mapping(entries);
    let version = || (Some("version".to_string()), YamlNode::Str("1.0.0".into()));
    preflight_document(&doc(vec![version()]), "").unwrap();
    assert_eq!(
        preflight_document(&doc(vec![]), "").unwrap_err(),
        "version: missing required configuration version; only version \"1.0.0\" is supported"
    );
    assert_eq!(
        preflight_document(&doc(vec![(Some("version".into()), YamlNode::Other)]), "Number(1)").unwrap_err(),
        "version: unsupported configuration version value Number(1); expected YAML string \"1.0.0\""
    );
    let nested = doc(vec![
        version(),
        (
            Some("packages".into()),
            doc(vec![(Some("flatpak".into()), YamlNode::Sequence(vec![YamlNode::Str("a".into()), YamlNode::Null]))]),
        ),
    ]);
    assert_eq!(
        preflight_document(&nested, "").unwrap_err(),
        "packages.flatpak[1]: explicit null is invalid; omit the field instead"
    );
    assert_eq!(
        reject_nulls(&YamlNode::Null, "config").unwrap_err(),
        "config: explicit null is invalid; omit the field instead"
    );
}

#[test]
fn yaml_events_are_read_from_the_text() {
    reject_yaml_events("version: \"1.0.0\"\nname: x\n", UNSUPPORTED_FEATURE).unwrap();
    assert!(reject_yaml_events("a: 1\n---\nb: 2\n", UNSUPPORTED_FEATURE)
        .unwrap_err()
        .contains("multiple YAML documents are not supported"));
    assert!(reject_yaml_events("a: &x 1\nb: *x\n", UNSUPPORTED_FEATURE).unwrap_err().contains("YAML anchors"));
    assert!(reject_yaml_events("a: !custom 1\n", UNSUPPORTED_FEATURE).unwrap_err().contains("YAML tags"));
    assert!(reject_yaml_events("a: [1, 2\n", UNSUPPORTED_FEATURE)
        .unwrap_err()
        .starts_with("parse YAML extension preflight: "));
}

#[test]
fn debug_texts_of_tokens_and_events_are_classified() {
    assert_eq!(classify_token("VersionDirective(1, 2)"), YamlTokenKind::Directive);
    assert_eq!(classify_token("TagDirective(\"!\", \"tag:x\")"), YamlTokenKind::Directive);
    assert_eq!(classify_token("Tag(\"!!\", \"str\")"), YamlTokenKind::Tag);
    assert_eq!(classify_token("Anchor(\"x\")"), YamlTokenKind::Anchor);
    assert_eq!(classify_token("Alias(\"x\")"), YamlTokenKind::Alias);
    assert_eq!(classify_token("Scalar(Plain, \"Tag(\")"), YamlTokenKind::Other);
    assert_eq!(classify_token("StreamEnd"), YamlTokenKind::Other);
    assert_eq!(classify_event("DocumentStart"), YamlEventKind::DocumentStart);
    assert_eq!(classify_event("Alias(1)"), YamlEventKind::Alias);
    assert_eq!(classify_event("Scalar(\"a, \\\"b\", Plain, 1, None)"), YamlEventKind::Anchored);
    assert_eq!(
        classify_event("Scalar(\"x\", Plain, 0, Some(Tag { handle: \"!!\", suffix: \"str\" }))"),
        YamlEventKind::Tagged
    );
    assert_eq!(classify_event("Scalar(\"0, Some(\", DoubleQuoted, 0, None)"), YamlEventKind::Other);
    assert_eq!(classify_event("SequenceStart(2, None)"), YamlEventKind::Anchored);
    assert_eq!(classify_event("MappingStart(0, Some(Tag { handle: \"!\", suffix: \"m\" }))"), YamlEventKind::Tagged);
    assert_eq!(classify_event("MappingStart(0, None)"), YamlEventKind::Other);
}
