use cozydot::operations::packages::flatpak::{app_query, ensure_apps, ensure_flathub, update_apps};

#[test]
fn flathub_is_added_if_missing_then_canonicalized() {
    let commands = ensure_flathub();
    assert_eq!(commands.len(), 2);
    assert_eq!(commands[0].program, "flatpak");
    assert_eq!(
        commands[0].args,
        vec!["--user", "remote-add", "--if-not-exists", "flathub", "https://dl.flathub.org/repo/flathub.flatpakrepo"]
    );
    assert_eq!(
        commands[1].args,
        vec![
            "--user", "remote-modify", "--url=https://dl.flathub.org/repo/", "--gpg-verify", "--enumerate",
            "--use-for-deps", "--enable", "--no-filter", "flathub"
        ]
    );
    assert_eq!(commands[1].label, "Flathub remote security canonicalization");
}

#[test]
fn only_missing_applications_are_installed() {
    let refs = vec!["org.mozilla.firefox".to_string(), "org.gimp.GIMP".to_string()];
    assert_eq!(app_query("org.gimp.GIMP"), vec!["--user", "info", "--show-ref", "--", "org.gimp.GIMP"]);
    let command = ensure_apps(&refs, &vec![true, false]).unwrap();
    assert_eq!(
        command.args,
        vec!["--user", "install", "--app", "--noninteractive", "-y", "flathub", "--", "org.gimp.GIMP"]
    );
    assert!(ensure_apps(&refs, &vec![true, true]).is_none());
    assert!(ensure_apps(&Vec::new(), &Vec::new()).is_none());
    assert_eq!(update_apps().args, vec!["--user", "update", "--app", "--noninteractive", "-y"]);
}
