use cozydot::config::model::DetectedPlatform;
use cozydot::config::v1::rules::{check_rule, validate_literal, validate_rust_version, Rule};
use cozydot::config::v1::{
    schema_from_signed, schema_from_unsigned, AptComponent, AptSourceToken, AptSources, AssetSelector,
    AssetSelectors, ConfigV1, ConfiguredRepositorySuite, DesktopKind, DirectFormat, DirectPackage,
    Distro, DockerIntegration, GithubSource, GithubSourceType, HttpsUrl, Packages, Repository,
    RepositorySource, RepositoryUrls, System, SystemApt, Tools,
};
use cozydot::platform::{Architecture, Family};

fn no_urls() -> RepositoryUrls {
    RepositoryUrls {
        default: None,
        ubuntu: None,
        linuxmint: None,
        pop: None,
        zorin: None,
        deepin: None,
        debian: None,
        kali: None,
        tails: None,
    }
}

fn repository(name: &str) -> Repository {
    Repository {
        name: name.into(),
        key: HttpsUrl::parse("https://example.com/key").unwrap(),
        source: RepositorySource {
            urls: RepositoryUrls {
                default: Some(HttpsUrl::parse("https://example.com/repo").unwrap()),
                ..no_urls()
            },
            suite: ConfiguredRepositorySuite::Fixed(AptSourceToken::parse("stable").unwrap()),
            components: vec![AptSourceToken::parse("main").unwrap()],
        },
        packages: vec!["gh".into()],
    }
}

fn empty_config() -> ConfigV1 {
    ConfigV1 {
        schema: 1,
        system: None,
        packages: None,
        tools: None,
        fonts: None,
        dotfiles: None,
        integrations: None,
        desktop: None,
        updates: None,
    }
}

fn no_packages() -> Packages {
    Packages {
        remove: None,
        apt: None,
        repositories: None,
        flatpak: None,
        cargo: None,
        npm: None,
        direct: None,
    }
}

fn platform(distro: &str, upstream: &str, desktop: &str) -> DetectedPlatform {
    DetectedPlatform {
        distro: distro.into(),
        upstream: upstream.into(),
        desktop: desktop.into(),
        architecture: Architecture::Amd64,
        distro_codename: "noble".into(),
        base_codename: "noble".into(),
    }
}

fn direct(name: &str, amd64: bool) -> DirectPackage {
    let selector = AssetSelector { pattern: "tool-*-linux.tar.gz".into(), exclude: vec![] };
    DirectPackage {
        name: name.into(),
        format: DirectFormat::Deb,
        provides: vec!["tool".into()],
        source: GithubSource {
            kind: GithubSourceType::Github,
            repository: "owner/tool".into(),
            assets: AssetSelectors {
                amd64: if amd64 { Some(selector) } else { None },
                arm64: if amd64 { None } else { Some(AssetSelector { pattern: "*arm64*".into(), exclude: vec![] }) },
                arm32: None,
                riscv64: None,
            },
        },
    }
}

#[test]
fn repository_stem_uses_contract_sanitization() {
    let repository = repository("--GitHub__CLI!!");
    assert_eq!(repository.sanitized_name(), "github-cli");
}

#[test]
fn distro_url_precedes_default() {
    let urls = RepositoryUrls {
        default: Some(HttpsUrl::parse("https://default.example").unwrap()),
        ubuntu: Some(HttpsUrl::parse("https://ubuntu.example").unwrap()),
        ..no_urls()
    };
    assert_eq!(urls.select("ubuntu").unwrap(), "https://ubuntu.example/");
    assert_eq!(urls.select("debian").unwrap(), "https://default.example/");
}

#[test]
fn url_selection_errors_name_the_distro() {
    let urls = RepositoryUrls {
        ubuntu: Some(HttpsUrl::parse("https://ubuntu.example").unwrap()),
        ..no_urls()
    };
    assert_eq!(
        urls.select("debian").unwrap_err(),
        "repository source URL selection: no URL for distro \"debian\" and no default URL"
    );
    assert_eq!(
        urls.select("arch").unwrap_err(),
        "repository source URL selection: unsupported distro \"arch\""
    );
}

#[test]
fn https_urls_name_the_rule_they_break() {
    assert_eq!(HttpsUrl::parse(" ").unwrap_err(), "URL: must be a non-empty string");
    assert_eq!(
        HttpsUrl::parse("https://example.com/${ARCH}").unwrap_err(),
        "must be a literal HTTPS URL without whitespace or substitutions"
    );
    assert_eq!(HttpsUrl::parse("not a url").unwrap_err(), "must be a literal HTTPS URL without whitespace or substitutions");
    assert_eq!(HttpsUrl::parse("relative/path").unwrap_err(), "must be a valid absolute HTTPS URL");
    assert_eq!(
        HttpsUrl::parse("http://example.com").unwrap_err(),
        "must use HTTPS with a non-empty host and no credentials or fragment"
    );
    assert_eq!(HttpsUrl::parse("https://Example.com/a").unwrap().as_str(), "https://example.com/a");
}

#[test]
fn schema_accepts_only_one() {
    assert_eq!(schema_from_unsigned(1).unwrap(), 1);
    assert_eq!(schema_from_signed(1).unwrap(), 1);
    assert_eq!(
        schema_from_unsigned(2).unwrap_err(),
        "unsupported schema version 2; only schema 1 is supported; rewrite legacy configurations or run 'cozydot init'"
    );
    assert_eq!(
        schema_from_signed(-3).unwrap_err(),
        "unsupported schema version -3; only schema 1 is supported; rewrite legacy configurations or run 'cozydot init'"
    );
}

#[test]
fn source_tokens_and_suites() {
    assert_eq!(AptSourceToken::parse("non-free").unwrap().as_str(), "non-free");
    assert!(AptSourceToken::parse("Main").is_err());
    assert!(AptSourceToken::parse("").is_err());
    assert!(matches!(ConfiguredRepositorySuite::parse("system").unwrap(), ConfiguredRepositorySuite::System));
    assert!(matches!(ConfiguredRepositorySuite::parse("stable").unwrap(), ConfiguredRepositorySuite::Fixed(_)));
}

#[test]
fn components_need_managed_sources_and_the_family() {
    let apt = SystemApt {
        sources: Some(AptSources::Preserve),
        components: Some(vec![AptComponent::Main]),
        unattended_upgrades: None,
    };
    assert_eq!(
        apt.validate(None).unwrap_err(),
        "system.apt.components: valid only with system.apt.sources: managed"
    );
    let apt = SystemApt {
        sources: Some(AptSources::Managed),
        components: Some(vec![AptComponent::Main, AptComponent::Main]),
        unattended_upgrades: None,
    };
    assert_eq!(apt.validate(None).unwrap_err(), "system.apt.components[1]: duplicate value \"main\"");
    let apt = SystemApt {
        sources: Some(AptSources::Managed),
        components: Some(vec![AptComponent::Main, AptComponent::Universe]),
        unattended_upgrades: None,
    };
    apt.validate(Some(Family::Ubuntu)).unwrap();
    assert_eq!(
        apt.validate(Some(Family::Debian)).unwrap_err(),
        "system.apt.components[1]: component \"universe\" is unsupported by the configured distribution family"
    );
    let apt = SystemApt {
        sources: Some(AptSources::Managed),
        components: Some(vec![]),
        unattended_upgrades: None,
    };
    assert_eq!(apt.validate(None).unwrap_err(), "system.apt.components: must be a non-empty sequence");
}

#[test]
fn repositories_reject_duplicates_and_colliding_stems() {
    let mut packages = no_packages();
    packages.repositories = Some(vec![repository("GitHub CLI"), repository("github-cli")]);
    let mut config = empty_config();
    config.packages = Some(packages);
    assert_eq!(
        config.validate().unwrap_err(),
        "packages.repositories[1].name: sanitized repository filename stem \"github-cli\" collides with an earlier repository"
    );
    let mut packages = no_packages();
    packages.repositories = Some(vec![repository("a"), repository("a")]);
    assert_eq!(
        packages.validate(None).unwrap_err(),
        "packages.repositories[1].name: duplicate repository name \"a\""
    );
    let mut packages = no_packages();
    packages.repositories = Some(vec![repository("!!")]);
    assert_eq!(
        packages.validate(None).unwrap_err(),
        "packages.repositories[0].name: produces an empty repository filename stem"
    );
    let mut bad = repository("x");
    bad.source.components.push(AptSourceToken::parse("main").unwrap());
    let mut packages = no_packages();
    packages.repositories = Some(vec![bad]);
    assert_eq!(
        packages.validate(None).unwrap_err(),
        "packages.repositories[0].source.components[1]: duplicate value AptSourceToken(\"main\")"
    );
    let mut bad = repository("x");
    bad.source.urls = no_urls();
    let mut packages = no_packages();
    packages.repositories = Some(vec![bad]);
    assert_eq!(
        packages.validate(None).unwrap_err(),
        "packages.repositories[0].source.urls: must contain default and/or a supported distro key"
    );
}

#[test]
fn configured_distro_selects_repository_urls() {
    let mut only_ubuntu = repository("x");
    only_ubuntu.source.urls = RepositoryUrls {
        ubuntu: Some(HttpsUrl::parse("https://ubuntu.example").unwrap()),
        ..no_urls()
    };
    let mut packages = no_packages();
    packages.repositories = Some(vec![only_ubuntu]);
    let mut config = empty_config();
    config.packages = Some(packages);
    config.system = Some(System { distro: Some(Distro::Debian), desktop: None, ensure_admin: None, apt: None, ubuntu: None });
    assert_eq!(
        config.validate().unwrap_err(),
        "packages.repositories[0].source.urls: repository source URL selection: no URL for distro \"debian\" and no default URL"
    );
    config.system = Some(System { distro: Some(Distro::Ubuntu), desktop: None, ensure_admin: None, apt: None, ubuntu: None });
    config.validate().unwrap();
}

#[test]
fn npm_packages_need_node() {
    let mut packages = no_packages();
    packages.npm = Some(vec!["typescript".into()]);
    let mut config = empty_config();
    config.packages = Some(packages);
    assert_eq!(config.validate().unwrap_err(), "packages.npm: requires tools.node");
    config.tools = Some(Tools { rust: None, go: None, node: Some("lts".into()), python: None });
    config.validate().unwrap();
}

#[test]
fn tools_versions_are_checked() {
    let tools = Tools { rust: Some("nightly-2024-02-30".into()), go: None, node: None, python: None };
    assert_eq!(
        tools.validate().unwrap_err(),
        "tools.rust: has an invalid version; expected 2 to 3 numeric components"
    );
    let tools = Tools { rust: Some("1.80".into()), go: Some("latest".into()), node: Some("22".into()), python: Some("3.12".into()) };
    tools.validate().unwrap();
    validate_rust_version("nightly-2024-02-29", "tools.rust").unwrap();
}

#[test]
fn direct_packages_are_checked() {
    let mut packages = no_packages();
    packages.direct = Some(vec![direct("tool", true), direct("tool", true)]);
    assert_eq!(
        packages.validate(None).unwrap_err(),
        "packages.direct[1].name: duplicate direct-package name \"tool\""
    );
    let mut bad = direct("tool", true);
    bad.source.assets.amd64 = Some(AssetSelector { pattern: "tool.tar.gz".into(), exclude: vec![] });
    let mut packages = no_packages();
    packages.direct = Some(vec![bad]);
    assert_eq!(
        packages.validate(None).unwrap_err(),
        "packages.direct[0].source.assets.amd64.pattern: must be an anchored filename wildcard using only '*' and '?' operators, without paths or substitutions"
    );
}

#[test]
fn docker_log_size_needs_the_local_driver() {
    let docker = DockerIntegration { add_user_to_group: None, local_log_driver: None, max_log_size: Some("10m".into()) };
    assert_eq!(
        docker.validate().unwrap_err(),
        "integrations.docker.max_log_size: requires integrations.docker.local_log_driver: true"
    );
    let docker = DockerIntegration { add_user_to_group: None, local_log_driver: Some(true), max_log_size: Some("0m".into()) };
    assert_eq!(
        docker.validate().unwrap_err(),
        "integrations.docker.max_log_size: must be a positive integer followed by k, m, or g"
    );
}

#[test]
fn platform_must_match_the_configuration() {
    let mut config = empty_config();
    config.system = Some(System {
        distro: Some(Distro::Debian),
        desktop: Some(DesktopKind::Auto),
        ensure_admin: None,
        apt: None,
        ubuntu: None,
    });
    assert_eq!(
        config.validate_for_platform(&platform("ubuntu", "ubuntu", "gnome")).unwrap_err(),
        "system.distro: configured distribution \"debian\" does not match resolved platform distribution \"ubuntu\""
    );
    config.system = Some(System { distro: None, desktop: Some(DesktopKind::Headless), ensure_admin: None, apt: None, ubuntu: None });
    assert_eq!(
        config.validate_for_platform(&platform("ubuntu", "ubuntu", "gnome")).unwrap_err(),
        "system.desktop: configured desktop \"none\" does not match resolved platform desktop \"gnome\""
    );
    let config = empty_config();
    assert_eq!(
        config.validate_for_platform(&platform("pop", "debian", "gnome")).unwrap_err(),
        "system.distro: platform distro \"pop\" does not belong to upstream family \"debian\""
    );
    assert_eq!(
        config.validate_for_platform(&platform("arch", "arch", "gnome")).unwrap_err(),
        "system.distro: unsupported detected distribution \"arch\"; supported distributions are ubuntu, linuxmint, pop, zorin, deepin, debian, kali, and tails"
    );
    let mut config = empty_config();
    let mut packages = no_packages();
    packages.direct = Some(vec![direct("tool", false)]);
    config.packages = Some(packages);
    assert_eq!(
        config.validate_for_platform(&platform("ubuntu", "ubuntu", "gnome")).unwrap_err(),
        "packages.direct[0].source.assets.amd64: missing native asset selector for package \"tool\""
    );
}

#[test]
fn value_rules_of_schema_one() {
    assert_eq!(
        validate_literal("a{{b}}", "x").unwrap_err(),
        "x: must be a literal value without interpolation or substitution"
    );
    check_rule(Rule::VsCodeExtension, "ms-python.python", "e").unwrap();
    assert_eq!(
        check_rule(Rule::GnomeUuid, "a@b@c", "e").unwrap_err(),
        "e: must be an exact GNOME extension UUID containing one '@'"
    );
    assert_eq!(
        check_rule(Rule::DirectoryName, "..", "d").unwrap_err(),
        "d: must be one directory name below the dotfiles root, not a path"
    );
}
