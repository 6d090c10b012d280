use cozydot::release::{release_members_check, MemberKind};

fn members(entries: &[(&str, MemberKind)]) -> Vec<(String, MemberKind)> {
    entries.iter().map(|(name, kind)| (name.to_string(), *kind)).collect()
}

#[test]
fn accepts_expected_flat_layout() {
    let entries = members(&[
        ("cozydot", MemberKind::Regular),
        ("configs/default.yaml", MemberKind::Regular),
        ("dotfiles/pkg/file", MemberKind::Regular),
    ]);
    release_members_check(&entries).unwrap();
}

#[test]
fn rejects_links_duplicates_collisions_and_missing_required_files() {
    let cases = [
        vec![("cozydot", MemberKind::Regular), ("configs/default.yaml", MemberKind::Other)],
        vec![
            ("cozydot", MemberKind::Regular),
            ("cozydot", MemberKind::Regular),
            ("configs/default.yaml", MemberKind::Regular),
        ],
        vec![
            ("cozydot", MemberKind::Regular),
            ("configs/default.yaml", MemberKind::Regular),
            ("dotfiles/clash", MemberKind::Regular),
            ("dotfiles/clash/child", MemberKind::Regular),
        ],
        vec![("cozydot", MemberKind::Regular)],
    ];
    for entries in cases {
        assert!(release_members_check(&members(&entries)).is_err());
    }
}

#[test]
fn release_member_errors_name_the_member() {
    let check = |entries: &[(&str, MemberKind)]| release_members_check(&members(entries));
    assert_eq!(
        check(&[("cozydot", MemberKind::Regular), ("configs/default.yaml", MemberKind::Other)]).unwrap_err(),
        "release contains a link or special file: configs/default.yaml"
    );
    assert_eq!(check(&[("../cozydot", MemberKind::Regular)]).unwrap_err(), "unsafe release path: ../cozydot");
    assert_eq!(check(&[("/cozydot", MemberKind::Regular)]).unwrap_err(), "unsafe release path: /cozydot");
    assert_eq!(check(&[("./cozydot", MemberKind::Regular)]).unwrap_err(), "unsafe release path: ./cozydot");
    assert_eq!(check(&[("", MemberKind::Regular)]).unwrap_err(), "unsafe release path: ");
    assert_eq!(check(&[("README.md", MemberKind::Regular)]).unwrap_err(), "unexpected release path: README.md");
    assert_eq!(
        check(&[("cozydot", MemberKind::Regular), ("cozydot/", MemberKind::Directory)]).unwrap_err(),
        "duplicate release path: cozydot/"
    );
    assert_eq!(
        check(&[("dotfiles/a", MemberKind::Regular), ("dotfiles/a/b", MemberKind::Directory)]).unwrap_err(),
        "release path collision: dotfiles/a/b"
    );
    assert_eq!(
        check(&[("dotfiles/a/b", MemberKind::Directory), ("dotfiles/a", MemberKind::Regular)]).unwrap_err(),
        "release path collision: dotfiles/a"
    );
    assert_eq!(
        check(&[("configs", MemberKind::Directory), ("cozydot", MemberKind::Directory), ("configs/default.yaml", MemberKind::Regular)])
            .unwrap_err(),
        "release must contain exactly one cozydot and configs/default.yaml"
    );
    check(&[
        ("configs", MemberKind::Directory),
        ("configs//default.yaml", MemberKind::Regular),
        ("dotfiles", MemberKind::Directory),
        ("dotfiles/./git/.gitconfig", MemberKind::Regular),
        ("cozydot", MemberKind::Regular),
    ])
    .unwrap();
}
