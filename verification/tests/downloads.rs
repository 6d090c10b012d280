use cozydot::operations::downloads::{binary_destination, binary_plan, NO_PARENT};
use cozydot::operations::downloads::{
    binary_kind, deb_command_name, deb_install_command, download_command, nerdfont, nerdfont_query,
    release_endpoint, release_query_command, unsupported_package, BinaryKind,
};

#[test]
fn nerdfont_installs_only_a_missing_family() {
    assert_eq!(nerdfont_query("JetBrainsMono"), ":family=JetBrainsMono Nerd Font");
    assert!(nerdfont("JetBrainsMono", b"/usr/share/fonts/x.ttf: JetBrainsMono\n", "/tmp/f.tar.xz").is_empty());
    let steps = nerdfont("JetBrainsMono", b"", "/tmp/f.tar.xz");
    assert_eq!(steps.len(), 5);
    assert_eq!(
        steps[0].args,
        vec!["-fL", "-o", "/tmp/f.tar.xz", "https://github.com/ryanoasis/nerd-fonts/releases/latest/download/JetBrainsMono.tar.xz"]
    );
    assert_eq!(steps[1].args, vec!["rm", "-rf", "/usr/share/fonts/JetBrainsMono"]);
    assert_eq!(steps[3].args, vec!["tar", "-xJ", "-C", "/usr/share/fonts/JetBrainsMono", "-f", "/tmp/f.tar.xz"]);
    assert_eq!(steps[4].program, "fc-cache");
}

#[test]
fn binaries_are_debian_packages_or_appimages() {
    assert_eq!(binary_kind("tool.deb"), BinaryKind::Deb);
    assert_eq!(binary_kind("Tool.AppImage"), BinaryKind::AppImage);
    assert_eq!(binary_kind("tool.tar.gz"), BinaryKind::Unsupported);
    assert_eq!(deb_command_name("tool.deb.deb"), "tool");
    assert_eq!(deb_command_name("tool"), "tool");
    assert_eq!(release_endpoint("o/r"), "https://api.github.com/repos/o/r/releases/latest");
    assert_eq!(release_query_command("o/r").args, vec!["-fsSL", "https://api.github.com/repos/o/r/releases/latest"]);
    assert_eq!(download_command("/tmp/t", "https://x/y").args, vec!["-fL", "-o", "/tmp/t", "https://x/y"]);
    assert_eq!(deb_install_command("/h/Applications/t.deb").args, vec!["apt-get", "install", "-qq", "/h/Applications/t.deb"]);
    assert_eq!(unsupported_package("x.zip"), "download binary: unsupported package x.zip");
}

#[test]
fn binary_plan_follows_what_is_there() {
    let destination = binary_destination("/home/u", "tool.AppImage");
    assert_eq!(destination, "/home/u/Applications/tool.AppImage");
    let done = binary_plan("tool.deb", "", "/home/u/Applications/tool.deb", true, true).unwrap();
    assert!(done.installed);
    let fresh = binary_plan("tool.AppImage", "owner/tool", &destination, false, true).unwrap();
    assert!(!fresh.installed);
    assert!(fresh.remove_destination);
    assert_eq!(fresh.parent, "/home/u/Applications");
    assert_eq!(fresh.kind, BinaryKind::AppImage);
    let query = fresh.release_query.unwrap();
    assert_eq!(query.args, vec!["-fsSL", "https://api.github.com/repos/owner/tool/releases/latest"]);
    let direct = binary_plan("tool.deb", "", "/home/u/Applications/tool.deb", false, false).unwrap();
    assert!(!direct.remove_destination);
    assert!(direct.release_query.is_none());
    let odd = binary_plan("tool.tar.gz", "", "/home/u/Applications/tool.tar.gz", true, true).unwrap();
    assert!(!odd.installed);
    assert!(!odd.remove_destination);
    assert_eq!(odd.kind, BinaryKind::Unsupported);
    assert_eq!(binary_plan("tool.deb", "", "", false, false).unwrap_err(), NO_PARENT);
}
