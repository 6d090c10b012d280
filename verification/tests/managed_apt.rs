use cozydot::operations::managed_apt::{
    reconcile, reconcile_deb822, reconcile_list, validate_source_path, ManagedAptSourcesOperation,
    SourceFile, OWNED_SOURCE,
};
use cozydot::platform::{Architecture, ManagedAptSources};

fn policy(distro: &str, release: &str, architecture: Architecture) -> ManagedAptSources {
    ManagedAptSourcesOperation::new(distro.into(), release.into(), architecture, vec!["main".into()])
        .unwrap()
        .policy
}

fn file(path: &str, text: &str) -> SourceFile {
    SourceFile { path: path.into(), text: text.into() }
}

#[test]
fn list_migration_removes_only_active_official_binary_entries() {
    let policy = policy("ubuntu", "noble", Architecture::Amd64);
    let input = "# base\ndeb http://archive.ubuntu.com/ubuntu noble main universe\ndeb-src http://archive.ubuntu.com/ubuntu noble main\ndeb [arch=arm64] http://archive.ubuntu.com/ubuntu noble main\ndeb [signed-by=/vendor.gpg] https://vendor.example/ubuntu noble main\n";
    let output = reconcile_list(&policy, input).unwrap();
    assert_eq!(
        output,
        "# base\ndeb-src http://archive.ubuntu.com/ubuntu noble main\ndeb [arch=arm64] http://archive.ubuntu.com/ubuntu noble main\ndeb [signed-by=/vendor.gpg] https://vendor.example/ubuntu noble main\n"
    );
}

#[test]
fn list_migration_handles_tabs_and_preserves_local_and_transport_sources() {
    let policy = policy("ubuntu", "noble", Architecture::Amd64);
    let input = "deb\thttps://archive.ubuntu.com/ubuntu\tnoble\tmain\ndeb file:/srv/mirror noble main\ndeb tor+http://mirror.example/ubuntu noble main\n";
    assert_eq!(
        reconcile_list(&policy, input).unwrap(),
        "deb file:/srv/mirror noble main\ndeb tor+http://mirror.example/ubuntu noble main\n"
    );
}

#[test]
fn deb822_migration_preserves_source_types_unknown_fields_and_unrelated_stanzas() {
    let policy = policy("debian", "trixie", Architecture::Amd64);
    let input = "Types: deb deb-src\nURIs: https://deb.debian.org/debian\nSuites: trixie trixie-updates\nComponents: main\nX-Vendor: keep me\n\nTypes: deb\nURIs: https://vendor.example/apt\nSuites: trixie\nComponents: main\nX-Repolib-Name: Vendor\n";
    let output = reconcile_deb822(&policy, input).unwrap();
    assert!(output.contains("Types: deb-src"));
    assert!(output.contains("X-Vendor: keep me"));
    assert!(output.contains("https://vendor.example/apt"));
    assert!(output.contains("X-Repolib-Name: Vendor"));
}

#[test]
fn mixed_official_stanzas_and_old_release_sources_fail_before_changes() {
    let policy = policy("ubuntu", "noble", Architecture::Amd64);
    assert!(reconcile_deb822(
        &policy,
        "Types: deb\nURIs: https://archive.ubuntu.com/ubuntu https://mirror.local/ubuntu\nSuites: noble\nComponents: main\n"
    )
    .unwrap_err()
    .contains("mixing official"));
    assert!(reconcile_list(&policy, "deb https://archive.ubuntu.com/ubuntu jammy main\n")
        .unwrap_err()
        .contains("unexpected release"));
    assert!(reconcile_list(
        &policy,
        "deb [arch-=amd64] https://archive.ubuntu.com/ubuntu noble main\n"
    )
    .unwrap_err()
    .contains("architecture add/remove"));
}

#[test]
fn reconciliation_is_retry_safe_and_publishes_owned_source_last() {
    let policy = policy("ubuntu", "noble", Architecture::Amd64);
    let files = vec![
        file("/etc/apt/sources.list", "deb http://archive.ubuntu.com/ubuntu noble main\n"),
        file(
            "/etc/apt/sources.list.d/vendor.sources",
            "Types: deb\nURIs: https://vendor.example/apt\nSuites: stable\nComponents: main\nX-Unknown: preserved\n",
        ),
    ];
    let changes = reconcile(&policy, &files).unwrap();
    assert_eq!(changes.last().unwrap().path, OWNED_SOURCE);
    let converged = vec![
        SourceFile { path: changes[0].path.clone(), text: changes[0].replacement.clone() },
        file(&files[1].path, &files[1].text),
        SourceFile { path: OWNED_SOURCE.to_owned(), text: policy.render_deb822() },
    ];
    assert!(reconcile(&policy, &converged).unwrap().is_empty());
}

#[test]
fn owned_source_is_created_with_the_exact_policy_rendering() {
    let policy = policy("debian", "trixie", Architecture::Arm64);
    let changes = reconcile(&policy, &vec![]).unwrap();
    assert_eq!(changes.len(), 1);
    assert_eq!(changes[0].path, OWNED_SOURCE);
    assert!(!changes[0].existed);
    assert_eq!(
        changes[0].replacement,
        "Types: deb\nURIs: http://deb.debian.org/debian\nSuites: trixie trixie-updates\nComponents: main\nSigned-By: /usr/share/keyrings/debian-archive-keyring.gpg\n\nTypes: deb\nURIs: http://deb.debian.org/debian-security\nSuites: trixie-security\nComponents: main\nSigned-By: /usr/share/keyrings/debian-archive-keyring.gpg\n"
    );
}

#[test]
fn deb822_source_only_stanza_is_rewritten_and_disabled_stanzas_are_kept() {
    let policy = policy("ubuntu", "noble", Architecture::Amd64);
    let input = "Types: deb deb-src\nURIs: http://archive.ubuntu.com/ubuntu/\nSuites: noble noble-updates\nComponents: main\n\nEnabled: no\nTypes: deb\nURIs: http://archive.ubuntu.com/ubuntu\nSuites: noble\nComponents: main\n";
    assert_eq!(
        reconcile_deb822(&policy, input).unwrap(),
        "Types: deb-src\nURIs: http://archive.ubuntu.com/ubuntu/\nSuites: noble noble-updates\nComponents: main\n\nEnabled: no\nTypes: deb\nURIs: http://archive.ubuntu.com/ubuntu\nSuites: noble\nComponents: main\n"
    );
}

#[test]
fn deb822_field_errors_are_reported() {
    let policy = policy("ubuntu", "noble", Architecture::Amd64);
    assert_eq!(
        reconcile_deb822(&policy, "Types: deb\nTypes: deb\n").unwrap_err(),
        "deb822 source has a duplicate field"
    );
    assert_eq!(reconcile_deb822(&policy, " continued\n").unwrap_err(), "deb822 continuation has no field");
    assert_eq!(reconcile_deb822(&policy, "Types deb\n").unwrap_err(), "deb822 source has malformed field");
    assert_eq!(reconcile_deb822(&policy, "Ty pes: deb\n").unwrap_err(), "deb822 source has malformed field name");
    assert_eq!(
        reconcile_deb822(&policy, "Types: deb\nEnabled: maybe\n").unwrap_err(),
        "deb822 source has an invalid Enabled value"
    );
    assert_eq!(
        reconcile_deb822(&policy, "Types: deb\nSuites: noble\n").unwrap_err(),
        "active deb822 APT source is missing URIs"
    );
}

#[test]
fn discovered_paths_must_be_source_files() {
    assert!(validate_source_path("/etc/apt/sources.list").is_ok());
    assert!(validate_source_path("/etc/apt/sources.list.d/vendor.sources").is_ok());
    assert!(validate_source_path("/etc/apt/sources.list.d/a_b-c.list").is_ok());
    assert_eq!(
        validate_source_path("/etc/apt/other.list").unwrap_err(),
        "managed APT discovery returned a path outside the source directories"
    );
    assert_eq!(
        validate_source_path("/etc/apt/sources.list.d/bad name.list").unwrap_err(),
        "managed APT discovery returned an invalid source filename"
    );
    assert_eq!(
        validate_source_path("/etc/apt/sources.list.d/vendor.txt").unwrap_err(),
        "managed APT discovery returned an invalid source filename"
    );
}

#[test]
fn unsupported_policies_are_refused() {
    assert!(ManagedAptSourcesOperation::new("fedora".into(), "40".into(), Architecture::Amd64, vec!["main".into()]).is_err());
    assert!(ManagedAptSourcesOperation::new("ubuntu".into(), "noble".into(), Architecture::Amd64, vec![]).is_err());
    assert!(ManagedAptSourcesOperation::new("kali".into(), "kali-last".into(), Architecture::Amd64, vec!["main".into()]).is_err());
    let op = ManagedAptSourcesOperation::new("ubuntu".into(), "noble".into(), Architecture::Arm64, vec!["main".into()]).unwrap();
    assert_eq!(op.display_args(), vec!["managed-apt-sources", "ubuntu", "noble", "arm64"]);
}

#[test]
fn deb822_migration_of_its_own_result_changes_nothing() {
    let policy = policy("ubuntu", "noble", Architecture::Amd64);
    let input = "Types: deb deb-src\nURIs: http://archive.ubuntu.com/ubuntu\nSuites: noble noble-updates\nComponents: main\n  universe\n\nTypes: deb\nURIs: https://vendor.example/apt\nSuites: stable\nComponents: main\n\nTypes: deb\nURIs: http://archive.ubuntu.com/ubuntu\nSuites: noble\nComponents: main\n";
    let once = reconcile_deb822(&policy, input).unwrap();
    assert_eq!(
        once,
        "Types: deb-src\nURIs: http://archive.ubuntu.com/ubuntu\nSuites: noble noble-updates\nComponents: main\n  universe\n\nTypes: deb\nURIs: https://vendor.example/apt\nSuites: stable\nComponents: main\n"
    );
    assert_eq!(reconcile_deb822(&policy, &once).unwrap(), once);
    let files = vec![
        file("/etc/apt/sources.list.d/ubuntu.sources", &once),
        file(OWNED_SOURCE, &policy.render_deb822()),
    ];
    assert!(reconcile(&policy, &files).unwrap().is_empty());
}
