use cozydot::json::Json;
use cozydot::operations::cargo_binstall::{
    bootstrap_start, check_archive_digest, check_cargo_home, check_record_architecture,
    check_staged_version, installed_file_matches, pending_record, release_from_record, with_status,
    BootstrapStart,
    parse_version_output, resolve_release, target, validate_archive_listing, validate_record,
    validate_sha256, validate_version_tag, version_matches_tag, CargoBinstallBootstrapOperation, Record,
    Status,
};
use cozydot::platform::Architecture;

fn convert(value: &serde_json::Value) -> Json {
    match value {
        serde_json::Value::Null => Json::Null,
        serde_json::Value::Bool(b) => Json::Bool(*b),
        serde_json::Value::Number(n) => Json::Number(n.as_u64()),
        serde_json::Value::String(s) => Json::Str(s.clone()),
        serde_json::Value::Array(items) => Json::Array(items.iter().map(convert).collect()),
        serde_json::Value::Object(members) => {
            Json::Object(members.iter().map(|(k, v)| (k.clone(), convert(v))).collect())
        }
    }
}

const SHA: &str = "0123456789abcdef0123456789abcdef0123456789abcdef0123456789abcdef";

#[test]
fn target_matrix_is_explicit() {
    assert_eq!(target(Architecture::Amd64), "x86_64-unknown-linux-musl");
    assert_eq!(target(Architecture::Arm64), "aarch64-unknown-linux-musl");
    assert_eq!(target(Architecture::Arm32), "armv7-unknown-linux-musleabihf");
    assert_eq!(target(Architecture::Riscv64), "riscv64gc-unknown-linux-musl");
}

#[test]
fn archive_and_version_parsers_fail_closed() {
    validate_archive_listing(b"LICENSE\ncargo-binstall\n").unwrap();
    for listing in [
        b"../cargo-binstall\n".as_slice(),
        b"/cargo-binstall\n".as_slice(),
        b"cargo-binstall\ncargo-binstall\n".as_slice(),
        b"LICENSE\n".as_slice(),
    ] {
        assert!(validate_archive_listing(listing).is_err());
    }
    assert_eq!(parse_version_output(b"1.21.0\n").unwrap(), "1.21.0");
    assert!(parse_version_output(b"cargo-binstall 1.21.0\n").is_err());
}

fn record() -> Record {
    Record {
        version: 1,
        status: Status::Completed,
        architecture: "amd64".into(),
        target: "x86_64-unknown-linux-musl".into(),
        tag: "v1.21.0".into(),
        asset_name: "cargo-binstall-x86_64-unknown-linux-musl.tgz".into(),
        url: "https://github.com/cargo-bins/cargo-binstall/releases/download/v1.21.0/cargo-binstall-x86_64-unknown-linux-musl.tgz".into(),
        archive_sha256: SHA.into(),
        executable_sha256: SHA.into(),
    }
}

#[test]
fn managed_records_must_be_canonical() {
    validate_record(&record()).unwrap();
    let mut stale = record();
    stale.version = 2;
    assert_eq!(validate_record(&stale).unwrap_err(), "unsupported cargo-binstall managed record version 2");
    let mut wrong = record();
    wrong.target = "aarch64-unknown-linux-musl".into();
    assert_eq!(
        validate_record(&wrong).unwrap_err(),
        "cargo-binstall managed record architecture or target is not canonical"
    );
    let mut renamed = record();
    renamed.asset_name = "other.tgz".into();
    assert_eq!(validate_record(&renamed).unwrap_err(), "cargo-binstall managed record asset name is inconsistent");
}

#[test]
fn tags_and_digests_are_strict() {
    assert!(validate_version_tag("v1.2.3").is_ok());
    assert!(validate_version_tag("1.2.3").is_err());
    assert!(validate_version_tag("v1.02.3").is_err());
    assert!(validate_sha256(SHA).is_ok());
    assert!(validate_sha256(&SHA.to_uppercase()).is_err());
    assert!(version_matches_tag(b"1.21.0\n", "v1.21.0").unwrap());
    assert!(!version_matches_tag(b"1.21.1\n", "v1.21.0").unwrap());
}

#[test]
fn the_release_asset_for_the_target_is_selected() {
    let text = format!(
        r#"{{"draft":false,"prerelease":false,"tag_name":"v1.21.0","assets":[
            {{"name":"cargo-binstall-aarch64-unknown-linux-musl.tgz"}},
            {{"name":"cargo-binstall-x86_64-unknown-linux-musl.tgz",
              "browser_download_url":"https://github.com/cargo-bins/cargo-binstall/releases/download/v1.21.0/cargo-binstall-x86_64-unknown-linux-musl.tgz",
              "digest":"sha256:{SHA}"}}
        ]}}"#
    );
    let value = convert(&serde_json::from_str(&text).unwrap());
    let release = resolve_release(&value, Architecture::Amd64).unwrap();
    assert_eq!(release.tag, "v1.21.0");
    assert_eq!(release.sha256, SHA);
    assert_eq!(release.asset_name, "cargo-binstall-x86_64-unknown-linux-musl.tgz");
    assert_eq!(
        resolve_release(&value, Architecture::Riscv64).unwrap_err(),
        "cargo-binstall release has no native target asset"
    );
    let draft = convert(&serde_json::from_str(r#"{"draft":true,"prerelease":false}"#).unwrap());
    assert_eq!(resolve_release(&draft, Architecture::Amd64).unwrap_err(), "cargo-binstall GitHub release must be stable");
}

#[test]
fn bootstrap_display_names_the_architecture() {
    let op = CargoBinstallBootstrapOperation::new(Architecture::Arm32);
    assert_eq!(op.display_args(), vec!["cargo-binstall-bootstrap", "arm32"]);
}

#[test]
fn bootstrap_decisions_follow_the_managed_record() {
    let r = record();
    check_cargo_home("/home/user/.cargo").unwrap();
    assert_eq!(check_cargo_home(".cargo").unwrap_err(), "cargo-binstall managed CARGO_HOME must be absolute");
    check_record_architecture(&r, Architecture::Amd64).unwrap();
    assert_eq!(
        check_record_architecture(&r, Architecture::Arm64).unwrap_err(),
        "cargo-binstall has managed state for a different architecture"
    );
    let with_record = Some(record());
    assert_eq!(
        bootstrap_start(&with_record, true, true, "/d").unwrap(),
        BootstrapStart::Installed { republish: r.status != Status::Completed }
    );
    assert_eq!(
        bootstrap_start(&with_record, false, true, "/d").unwrap_err(),
        "cargo-binstall managed executable changed at /d"
    );
    assert_eq!(bootstrap_start(&with_record, false, false, "/d").unwrap(), BootstrapStart::Install { from_record: true });
    assert_eq!(
        bootstrap_start(&None, false, true, "/d").unwrap_err(),
        "cargo-binstall executable conflict at /d; refusing to adopt it"
    );
    assert_eq!(bootstrap_start(&None, false, false, "/d").unwrap(), BootstrapStart::Install { from_record: false });
    assert!(installed_file_matches(true, true, 1, 0o755, &r.executable_sha256, &r));
    assert!(!installed_file_matches(true, true, 2, 0o755, &r.executable_sha256, &r));
    assert!(!installed_file_matches(true, true, 1, 0o775, &r.executable_sha256, &r));
    check_archive_digest("ab", "ab").unwrap();
    assert_eq!(check_archive_digest("ab", "cd").unwrap_err(), "cargo-binstall archive SHA-256 checksum mismatch");
    check_staged_version(b"1.21.0\n", "v1.21.0").unwrap();
    assert_eq!(
        check_staged_version(b"1.20.0\n", "v1.21.0").unwrap_err(),
        "staged cargo-binstall version does not match its release tag"
    );
}

#[test]
fn pending_records_keep_the_managed_executable() {
    let r = record();
    let release = release_from_record(&r).unwrap();
    let pending = pending_record(&Some(record()), Architecture::Amd64, &release, r.executable_sha256.clone()).unwrap();
    assert_eq!(pending.status, Status::Pending);
    assert_eq!(pending.url, r.url);
    assert_eq!(pending.archive_sha256, r.archive_sha256);
    assert_eq!(
        pending_record(&Some(record()), Architecture::Amd64, &release, "0".repeat(64)).unwrap_err(),
        "cargo-binstall staged executable changed from its managed record"
    );
    let done = with_status(&pending, Status::Completed).unwrap();
    assert_eq!(done.status, Status::Completed);
    assert_eq!(done.tag, pending.tag);
}
