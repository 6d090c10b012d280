use cozydot::operations::go::{
    archive_download, check_archive, expected_version_line, metadata_query, replacement_commands, resolve_release,
    toolchain_current, update_skipped, GoFile, GoReleaseMetadata, GoToolchainSelector, CHECKSUM_ERROR,
    MALFORMED_VERSION_ERROR, NO_ARCHIVE_ERROR, NO_RELEASE_ERROR,
};
use cozydot::platform::Architecture;

fn release(version: &str, files: &[(&str, &str)]) -> GoReleaseMetadata {
    GoReleaseMetadata {
        version: version.into(),
        files: files.iter().map(|(f, s)| GoFile { filename: (*f).into(), sha256: (*s).into() }).collect(),
    }
}

fn releases() -> Vec<GoReleaseMetadata> {
    vec![
        release("go1.23.1", &[("go1.23.1.linux-amd64.tar.gz", "aa"), ("go1.23.1.linux-armv6l.tar.gz", "bb")]),
        release("go1.22.7", &[("go1.22.7.linux-amd64.tar.gz", "cc")]),
    ]
}

#[test]
fn the_selected_release_gives_the_archive_for_the_platform() {
    let latest = resolve_release(&GoToolchainSelector::Latest, &releases(), Architecture::Arm32, "linux").unwrap();
    assert_eq!((latest.version.as_str(), latest.filename.as_str(), latest.sha256.as_str()), ("1.23.1", "go1.23.1.linux-armv6l.tar.gz", "bb"));
    let pinned =
        resolve_release(&GoToolchainSelector::Version("1.22.7".into()), &releases(), Architecture::Amd64, "linux").unwrap();
    assert_eq!(pinned.sha256, "cc");
    assert_eq!(
        resolve_release(&GoToolchainSelector::Version("1.21.0".into()), &releases(), Architecture::Amd64, "linux").unwrap_err(),
        NO_RELEASE_ERROR
    );
    assert_eq!(
        resolve_release(&GoToolchainSelector::Version("1.22.7".into()), &releases(), Architecture::Arm64, "linux").unwrap_err(),
        NO_ARCHIVE_ERROR
    );
    assert_eq!(
        resolve_release(&GoToolchainSelector::Latest, &vec![release("1.23", &[])], Architecture::Amd64, "linux").unwrap_err(),
        MALFORMED_VERSION_ERROR
    );
    assert_eq!(resolve_release(&GoToolchainSelector::Latest, &Vec::new(), Architecture::Amd64, "linux").unwrap_err(), NO_RELEASE_ERROR);
}

#[test]
fn the_installed_toolchain_is_recognised_by_its_version_line() {
    let expected = expected_version_line("1.23.1", "linux", Architecture::Arm32);
    assert_eq!(expected, "go version go1.23.1 linux/arm");
    assert!(toolchain_current(true, true, b"go version go1.23.1 linux/arm\n", &expected));
    assert!(!toolchain_current(false, true, b"go version go1.23.1 linux/arm\n", &expected));
    assert!(!toolchain_current(true, false, b"go version go1.23.1 linux/arm\n", &expected));
    assert!(!toolchain_current(true, true, b"go version go1.22.7 linux/arm\n", &expected));
}

#[test]
fn go_commands_and_checks() {
    let query = metadata_query(&GoToolchainSelector::Version("1.22.7".into()));
    assert_eq!(query.args.last().unwrap(), "https://go.dev/dl/?mode=json&include=all");
    assert_eq!(metadata_query(&GoToolchainSelector::Latest).args.last().unwrap(), "https://go.dev/dl/?mode=json");
    let download = archive_download("go1.23.1.linux-amd64.tar.gz", "/tmp/go.tgz");
    assert_eq!(download.args.last().unwrap(), "https://go.dev/dl/go1.23.1.linux-amd64.tar.gz");
    assert_eq!(check_archive("aa", "aa"), Ok(()));
    assert_eq!(check_archive("aa", "bb").unwrap_err(), CHECKSUM_ERROR);
    let replace = replacement_commands("/tmp/go.tgz");
    assert_eq!(replace[0].args, vec!["rm", "-rf", "/usr/local/go"]);
    assert_eq!(replace[1].args, vec!["tar", "-xzf", "/tmp/go.tgz", "-C", "/usr/local"]);
    assert!(update_skipped(&GoToolchainSelector::Version("1.22.7".into())));
    assert!(!update_skipped(&GoToolchainSelector::Latest));
}
