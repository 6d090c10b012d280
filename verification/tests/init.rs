use cozydot::init::{
    bundled_mode, config_should_write, package_unmodified, read_manifest, sort_by_key, write_manifest, ManagedFile,
    PackageState, Preset,
};

fn file(relative: &str, hash: &str) -> ManagedFile {
    ManagedFile { relative: relative.into(), hash: hash.into() }
}

const A: &str = "0123456789abcdef0123456789abcdef0123456789abcdef0123456789abcdef";
const B: &str = "ABCDEF0123456789ABCDEF0123456789ABCDEF0123456789ABCDEF0123456789";

#[test]
fn manifest_records_round_trip_in_path_order() {
    let files = vec![file("dotfiles/bash/.bashrc", A), file("cozydot.yaml", B), file("dotfiles/bash/a.b", A)];
    let text = write_manifest(&files);
    assert_eq!(
        text,
        format!("{B}\tcozydot.yaml\n{A}\tdotfiles/bash/.bashrc\n{A}\tdotfiles/bash/a.b\n")
    );
    let read = read_manifest(&text).unwrap();
    assert_eq!(read.len(), 3);
    assert_eq!(read[0].relative, "cozydot.yaml");
    assert_eq!(read[1].hash, A);
    let sorted = sort_by_key(&vec![file("a.b", A), file("a/b", A)]);
    assert_eq!(sorted[0].relative, "a/b");
}

#[test]
fn manifest_records_are_checked() {
    assert!(read_manifest("").unwrap().is_empty());
    assert_eq!(read_manifest("no tab\n").unwrap_err(), "malformed managed-files record");
    assert_eq!(read_manifest("abc\tx\n").unwrap_err(), "invalid SHA-256 record");
    assert_eq!(read_manifest(&format!("{A}\t../x\n")).unwrap_err(), "unsafe managed path: ../x");
    assert_eq!(read_manifest(&format!("{A}\t/etc/x\n")).unwrap_err(), "unsafe managed path: /etc/x");
    assert_eq!(read_manifest(&format!("{A}\t./x\n")).unwrap_err(), "unsafe managed path: ./x");
    assert_eq!(
        read_manifest(&format!("{A}\ta/b\n{B}\ta//b/.\n")).unwrap_err(),
        "duplicate managed-files record"
    );
    assert_eq!(read_manifest(&format!("{A}\ta/./b\n")).unwrap()[0].relative, "a/./b");
}

#[test]
fn presets_and_bundled_modes() {
    assert_eq!(Preset::Cli.file_name(), "configs/cli.yaml");
    assert_eq!(Preset::Cozydot.file_name(), "configs/cozydot.yaml");
    assert_eq!(bundled_mode(b"#!/bin/sh\n"), 0o755);
    assert_eq!(bundled_mode(b"set -o vi\n"), 0o644);
    assert_eq!(bundled_mode(b"#"), 0o644);
}

#[test]
fn the_preset_is_written_only_where_the_user_did_not_change_it() {
    assert!(config_should_write(true, false, None, None));
    assert!(config_should_write(false, true, Some("aa"), Some("aa")));
    assert!(!config_should_write(false, true, Some("bb"), Some("aa")));
    assert!(!config_should_write(false, true, Some("aa"), None));
    assert!(!config_should_write(false, false, Some("aa"), Some("aa")));
    assert!(!config_should_write(false, true, None, Some("aa")));
}

#[test]
fn a_bundled_package_is_synced_again_only_when_unmodified() {
    let managed = vec![
        ManagedFile { relative: "dotfiles/bash/.bashrc".into(), hash: "h1".into() },
        ManagedFile { relative: "dotfiles/bash/.profile".into(), hash: "h2".into() },
        ManagedFile { relative: "cozydot.yaml".into(), hash: "h3".into() },
    ];
    let both = || Some(vec!["dotfiles/bash/.profile".to_string(), "dotfiles/./bash/.bashrc".to_string()]);
    let current = || vec![Some("h1".to_string()), Some("h2".to_string()), None];
    assert!(package_unmodified(
        "dotfiles/bash",
        &managed,
        &PackageState::Directory { real_files: both(), current: current() }
    ));
    assert!(!package_unmodified(
        "dotfiles/bash",
        &managed,
        &PackageState::Directory { real_files: both(), current: vec![Some("h1".into()), Some("changed".into()), None] }
    ));
    assert!(!package_unmodified(
        "dotfiles/bash",
        &managed,
        &PackageState::Directory {
            real_files: Some(vec!["dotfiles/bash/.bashrc".into(), "dotfiles/bash/.profile".into(), "dotfiles/bash/extra".into()]),
            current: current()
        }
    ));
    assert!(!package_unmodified("dotfiles/bash", &managed, &PackageState::Directory { real_files: None, current: current() }));
    assert!(!package_unmodified("dotfiles/bash", &managed, &PackageState::Missing));
    assert!(package_unmodified("dotfiles/vim", &managed, &PackageState::Missing));
    assert!(!package_unmodified("dotfiles/vim", &managed, &PackageState::Directory { real_files: Some(Vec::new()), current: current() }));
    assert!(!package_unmodified("dotfiles/bash", &managed, &PackageState::NotDirectory));
}
