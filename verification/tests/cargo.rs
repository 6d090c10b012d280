use cozydot::operations::cargo::{installed_packages, require_packages, CargoPackageMode, CargoPackageOperation};

#[test]
fn cargo_state_accepts_registry_records_and_ignores_binaries_and_other_sources() {
    let output = b"bat v0.25.0:\n    bat\npath-probe v1.2.3 (/tmp/hermes-cargo-probe):\n    path-probe\ngit-probe v2.3.4 (https://github.com/example/repo?rev=main):\n    git-probe\nnested-probe v3.4.5 (/tmp/probe (safe)):\n    nested-probe\nprerelease-probe v1.2.3-alpha.1+build.7 (/tmp/prerelease-probe):\n    prerelease-probe\n";
    let installed = installed_packages(output).unwrap();
    assert_eq!(installed.into_iter().collect::<Vec<_>>(), ["bat"]);
}

#[test]
fn cargo_state_rejects_malformed_and_duplicate_registry_records() {
    for output in [
        b"bat\n".as_slice(),
        b"bat v01.2.3:\n".as_slice(),
        b"bat v1.2.3-01:\n".as_slice(),
        b"bat v1.2.3\n".as_slice(),
        b"bat v1.2.3 ():\n".as_slice(),
        b"bat v1.2.3 (/tmp/probe (broken):\n".as_slice(),
        b"bat v1.2.3 (/tmp/probe ) broken ():\n".as_slice(),
        b"bat v1.2.3 (/tmp/probe\tbroken):\n".as_slice(),
        b"bat v1.2.3:\nbat v1.2.4:\n".as_slice(),
    ] {
        assert!(installed_packages(output).is_err());
    }
}

#[test]
fn cargo_operations_validate_names_and_plan_mutations() {
    assert_eq!(
        CargoPackageOperation::new(vec![], CargoPackageMode::EnsurePresent).unwrap_err(),
        "Cargo package sequence must not be empty"
    );
    assert_eq!(
        CargoPackageOperation::new(vec!["bad name".into()], CargoPackageMode::EnsurePresent).unwrap_err(),
        "invalid unversioned Cargo package name: \"bad name\""
    );
    assert_eq!(
        CargoPackageOperation::new(vec!["bat".into(), "bat".into()], CargoPackageMode::EnsurePresent).unwrap_err(),
        "duplicate Cargo package name: \"bat\""
    );
    let op = CargoPackageOperation::new(vec!["bat".into(), "ripgrep".into()], CargoPackageMode::EnsurePresent).unwrap();
    assert_eq!(op.display_args(), vec!["cargo-package-set", "ensure-present", "bat", "ripgrep"]);
    assert_eq!(op.binstall_args(&vec!["bat".into()]).unwrap(), vec!["--no-confirm", "ripgrep"]);
    assert!(op.binstall_args(&vec!["bat".into(), "ripgrep".into()]).is_none());
    let update = CargoPackageOperation::new(vec!["bat".into()], CargoPackageMode::UpdateCurrent).unwrap();
    assert_eq!(update.binstall_args(&vec!["bat".into()]).unwrap(), vec!["--no-confirm", "--force", "bat"]);
    assert_eq!(
        require_packages(&vec!["bat".into(), "fd".into(), "sd".into()], &vec!["bat".into()]).unwrap_err(),
        "Cargo package mutation did not install configured packages: fd, sd"
    );
}
