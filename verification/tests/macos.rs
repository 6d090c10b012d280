use cozydot::operations::command::curl;
use cozydot::operations::macos::{
    find_brew, install_command_line_tools_for_xcode, install_homebrew, install_packages, installed_query, BrewStep,
    update_and_upgrade, validate_sudo_access, write_defaults, MacDefault,
};

#[test]
fn homebrew_is_installed_once() {
    assert!(install_homebrew(true, "/tmp/brew.sh").is_empty());
    let steps = install_homebrew(false, "/tmp/brew.sh");
    assert_eq!(steps.len(), 2);
    assert_eq!(steps[0].program, "curl");
    assert_eq!(
        steps[0].args,
        vec![
            "--location", "--fail", "--silent", "--show-error", "--retry", "3", "--retry-all-errors", "--proto",
            "=https", "--output", "/tmp/brew.sh", "--",
            "https://raw.githubusercontent.com/Homebrew/install/HEAD/install.sh"
        ]
    );
    assert_eq!(steps[1].args, vec!["/tmp/brew.sh"]);
    assert_eq!(find_brew(true, true).unwrap(), "brew");
    assert_eq!(find_brew(false, true).unwrap(), "/opt/homebrew/bin/brew");
    assert!(find_brew(false, false).unwrap_err().starts_with("Homebrew is unavailable"));
}

#[test]
fn missing_formulae_and_casks_are_installed() {
    let formulae = vec!["git".to_string(), "fnm".to_string()];
    let casks = vec!["firefox".to_string()];
    let query = |position: usize, installed: Option<bool>| install_packages("brew", &formulae, &casks, position, installed);
    let (position, step) = query(0, None);
    assert_eq!(position, 0);
    assert!(matches!(step, BrewStep::Query(ref args) if args == &vec!["list", "--formula", "git"]));
    let (position, step) = query(position, Some(true));
    assert_eq!(position, 1);
    assert!(matches!(step, BrewStep::Query(ref args) if args == &vec!["list", "--formula", "fnm"]));
    let (position, step) = query(position, Some(false));
    assert_eq!(position, 2);
    match step {
        BrewStep::Install(command) => {
            assert_eq!(command.program, "brew");
            assert_eq!(command.args, vec!["install", "fnm"]);
        }
        _ => panic!("expected the fnm install"),
    }
    let (position, step) = query(position, None);
    assert_eq!(position, 2);
    assert!(matches!(step, BrewStep::Query(ref args) if args == &vec!["list", "--cask", "firefox"]));
    let (position, step) = query(position, Some(false));
    assert_eq!(position, 3);
    match step {
        BrewStep::Install(command) => assert_eq!(command.args, vec!["install", "--cask", "firefox"]),
        _ => panic!("expected the firefox install"),
    }
    assert!(matches!(query(position, None), (3, BrewStep::Done)));
    assert!(matches!(install_packages("brew", &formulae, &Vec::new(), 1, Some(true)), (2, BrewStep::Done)));
    assert_eq!(installed_query("--formula", "git"), vec!["list", "--formula", "git"]);
    assert!(install_command_line_tools_for_xcode(true).is_none());
    assert_eq!(install_command_line_tools_for_xcode(false).unwrap().args, vec!["--install"]);
}

#[test]
fn defaults_and_upgrades() {
    let commands = write_defaults(&vec![MacDefault::KeyRepeat(2), MacDefault::DockAutohide(true)]);
    assert_eq!(commands[0].args, vec!["write", "NSGlobalDomain", "KeyRepeat", "-int", "2"]);
    assert_eq!(commands[1].args, vec!["write", "com.apple.dock", "autohide", "-bool", "true"]);
    assert_eq!(update_and_upgrade("brew", true, false).len(), 2);
    assert_eq!(validate_sudo_access().args, vec!["-v"]);
    assert_eq!(curl("x", "https://a/b", vec![]).args.last().unwrap(), "https://a/b");
}
