use cozydot::operations::binary::{appimage_destination, package_deb_install, package_download, release_query};
use cozydot::config::BinaryFormat;
use cozydot::operations::binary::{
    select_asset, BinaryPackageOperation, BinarySourceOperation, GithubAsset, GithubRelease,
};
use cozydot::platform::Architecture;

fn operation() -> BinaryPackageOperation {
    BinaryPackageOperation::new(
        "gh".into(),
        BinaryFormat::Deb,
        Architecture::Amd64,
        BinarySourceOperation::GithubLatest { repo: "cli/cli".into(), selector: "linux_amd64\\.deb$".into() },
    )
}

fn release(names: &[&str]) -> GithubRelease {
    GithubRelease {
        assets: names
            .iter()
            .map(|name| GithubAsset {
                name: (*name).into(),
                browser_download_url: format!("https://example.com/{name}"),
            })
            .collect(),
    }
}

#[test]
fn exactly_one_asset_must_match_the_selector() {
    let op = operation();
    assert_eq!(op.name(), "gh");
    let r = release(&["gh_2.0_linux_arm64.deb", "gh_2.0_linux_amd64.deb", "gh_2.0_macOS.zip"]);
    assert_eq!(
        select_asset(&r, "linux_amd64\\.deb$", &op).unwrap(),
        "https://example.com/gh_2.0_linux_amd64.deb"
    );
    assert_eq!(
        select_asset(&r, "linux_.*\\.deb$", &op).unwrap_err(),
        "binary package \"gh\" (amd64) selector matched 2 assets"
    );
    assert_eq!(
        select_asset(&r, "windows", &op).unwrap_err(),
        "binary package \"gh\" (amd64) selector matched 0 assets"
    );
    assert_eq!(select_asset(&release(&[]), "(", &op).unwrap_err(), "compile binary asset regex");
}

#[test]
fn package_steps_name_their_release_download_and_install() {
    let op = operation();
    let query = release_query(&op).unwrap();
    assert_eq!(query.program, "curl");
    assert_eq!(query.label, "resolve binary package release");
    assert_eq!(
        query.args,
        vec![
            "--location", "--fail", "--silent", "--show-error", "--retry", "3", "--retry-all-errors", "--proto",
            "=https", "--header", "Accept: application/vnd.github+json", "--header",
            "X-GitHub-Api-Version: 2022-11-28", "--header", "User-Agent: cozydot/0.1.0", "--",
            "https://api.github.com/repos/cli/cli/releases/latest",
        ]
    );
    let fixed = BinaryPackageOperation::new(
        "tool".into(),
        BinaryFormat::AppImage,
        Architecture::Amd64,
        BinarySourceOperation::Url { url: "https://example.com/tool.AppImage".into() },
    );
    assert!(release_query(&fixed).is_none());
    assert_eq!(appimage_destination("/home/u", &fixed), "/home/u/Applications/tool.AppImage");
    let download = package_download("https://example.com/x.deb", "/tmp/x.deb");
    assert_eq!(download.args[7..], ["--output", "/tmp/x.deb", "--", "https://example.com/x.deb"]);
    assert_eq!(
        package_deb_install("/tmp/x.deb").args,
        vec!["DEBIAN_FRONTEND=noninteractive", "apt-get", "install", "-y", "-qq", "--", "/tmp/x.deb"]
    );
}
