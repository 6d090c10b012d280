use cozydot::operations::flatpak::{
    ensure_flathub, installed_apps, remotes_query_args, require_flathub, user_remotes, validate_flathub,
    validate_app_id, FlathubStage,
};

#[test]
fn remotes_are_read_with_sorted_options() {
    let remotes = user_remotes(b"flathub\thttps://dl.flathub.org/repo/\tno-enumerate,gpg\t-\nlocal\tfile:///srv/repo/\t\t-\n").unwrap();
    assert_eq!(remotes.len(), 2);
    assert_eq!(remotes[0].name, "flathub");
    assert_eq!(remotes[0].options, vec!["gpg".to_string(), "no-enumerate".to_string()]);
    assert_eq!(remotes[1].url, "file:///srv/repo/");
    assert!(remotes[1].options.is_empty());
}

#[test]
fn malformed_remote_lines_are_rejected() {
    assert_eq!(
        user_remotes(b"flathub\thttps://dl.flathub.org/repo/\t-\n").unwrap_err(),
        "flatpak returned malformed per-user remote state: \"flathub\\thttps://dl.flathub.org/repo/\\t-\""
    );
    assert!(user_remotes(b"a\tnot a url\t\t-\n").is_err());
    assert!(user_remotes(b"a\thttps://x.example/\tgpg,gpg\t-\n").is_err());
    assert!(user_remotes(b"a\thttps://x.example/\tgpg,\t-\n").is_err());
    assert_eq!(
        user_remotes(b"a\thttps://x.example/\t\t-\na\thttps://y.example/\t\t-\n").unwrap_err(),
        "flatpak returned duplicate per-user remote name: \"a\""
    );
    assert_eq!(user_remotes(&[0xff]).unwrap_err(), "flatpak returned non-UTF-8 per-user remote state");
}

#[test]
fn flathub_must_be_secure() {
    let missing = user_remotes(b"").unwrap();
    assert!(!validate_flathub(&missing).unwrap());
    assert_eq!(
        require_flathub(&missing).unwrap_err(),
        "Flathub remote mismatch: expected the per-user \"flathub\" remote to exist after mutation"
    );
    let good = user_remotes(b"flathub\thttps://dl.flathub.org/repo/\t\t-\n").unwrap();
    assert!(validate_flathub(&good).unwrap());
    require_flathub(&good).unwrap();
    let weak = user_remotes(b"flathub\thttps://dl.flathub.org/repo/\tno-gpg-verify,a\t-\n").unwrap();
    assert_eq!(
        validate_flathub(&weak).unwrap_err(),
        "Flathub remote mismatch: expected URL \"https://dl.flathub.org/repo/\" with GPG verification and enumeration enabled and no local filter; found URL \"https://dl.flathub.org/repo/\", options \"a,no-gpg-verify\", and filter \"-\". Repair or remove the per-user \"flathub\" remote and retry"
    );
}

#[test]
fn ensuring_flathub_adds_then_enables_dependencies() {
    let missing = user_remotes(b"").unwrap();
    let (add, stage) = ensure_flathub(FlathubStage::Inspected, &missing).unwrap().unwrap();
    assert_eq!(add.args, vec!["--user", "remote-add", "flathub", "https://dl.flathub.org/repo/flathub.flatpakrepo"]);
    assert_eq!(stage, FlathubStage::Added);
    assert!(ensure_flathub(FlathubStage::Added, &missing).is_err());
    let good = user_remotes(b"flathub\thttps://dl.flathub.org/repo/\t\t-\n").unwrap();
    let (deps, stage) = ensure_flathub(FlathubStage::Added, &good).unwrap().unwrap();
    assert_eq!(deps.args, vec!["--user", "remote-modify", "--use-for-deps", "flathub"]);
    assert_eq!(stage, FlathubStage::DepsEnabled);
    assert!(ensure_flathub(FlathubStage::DepsEnabled, &good).unwrap().is_none());
    assert_eq!(remotes_query_args(), vec!["--user", "remotes", "--show-disabled", "--columns=name,url,options,filter"]);
}

#[test]
fn installed_apps_and_ids() {
    assert_eq!(installed_apps(b"org.gnome.Maps\n").unwrap(), vec!["org.gnome.Maps".to_string()]);
    assert_eq!(
        validate_app_id("org.gnome").unwrap_err(),
        "invalid canonical Flatpak application ID: \"org.gnome\""
    );
}
