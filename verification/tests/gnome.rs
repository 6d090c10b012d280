use cozydot::operations::gnome::{
    combine_outcomes, dash_to_dock_commands, enable_command, extension_download_url, info_args, install_command,
    metadata_endpoint, rounded_corners_command, validate_extension, Outcome, DASH_TO_DOCK_UUID,
};

#[test]
fn extension_uuids_are_path_safe() {
    validate_extension(DASH_TO_DOCK_UUID).unwrap();
    assert_eq!(validate_extension("a@b@c").unwrap_err(), "invalid GNOME extension UUID \"a@b@c\"");
    assert!(validate_extension("a/b@c").is_err());
    assert!(validate_extension("@c").is_err());
}

#[test]
fn extension_urls_and_commands() {
    assert_eq!(
        metadata_endpoint(DASH_TO_DOCK_UUID),
        "https://extensions.gnome.org/extension-info/?uuid=dash-to-dock@micxgx.gmail.com"
    );
    assert_eq!(
        extension_download_url(DASH_TO_DOCK_UUID, 99),
        "https://extensions.gnome.org/extension-data/dash-to-dockmicxgx.gmail.com.v99.shell-extension.zip"
    );
    assert_eq!(info_args("x@y"), vec!["info", "x@y"]);
    assert_eq!(enable_command("x@y").args, vec!["enable", "x@y"]);
    assert_eq!(install_command("/tmp/e.zip").args, vec!["install", "--force", "/tmp/e.zip"]);
    let dock = dash_to_dock_commands();
    assert_eq!(dock.len(), 9);
    assert_eq!(dock[0].args, vec!["write", "/org/gnome/shell/extensions/dash-to-dock/dock-position", "'BOTTOM'"]);
    assert_eq!(rounded_corners_command().program, "dconf");
}

#[test]
fn a_login_is_required_when_any_extension_needs_one() {
    assert_eq!(combine_outcomes(&vec![]), Outcome::Completed);
    assert_eq!(combine_outcomes(&vec![Outcome::Completed, Outcome::LoginRequired]), Outcome::LoginRequired);
    assert_eq!(combine_outcomes(&vec![Outcome::Completed]), Outcome::Completed);
}
