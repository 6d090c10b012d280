use cozydot::operations::apt::{
    auto_upgrades_contents, package_state, packages, purge, purge_then_install, update,
    update_and_install, upgrade, AptAction, AptOutcome, AptUpgradeCommand, PurgeThenInstallStage, EMPTY_UPDATE_INSTALL_ERROR,
};
use cozydot::operations::command::Command;

fn names(items: &[&str]) -> Vec<String> {
    items.iter().map(|item| item.to_string()).collect()
}

fn sudo(command: &Command, label: &str, args: &[&str]) {
    assert_eq!(command.label, label);
    assert_eq!(command.program, "sudo");
    assert_eq!(command.args, names(args));
    assert!(command.check);
}

#[test]
fn update_refreshes_the_package_lists() {
    sudo(&update(), "APT update", &["apt-get", "update", "-qq"]);
}

#[test]
fn install_names_only_the_missing_packages() {
    let command = packages(&names(&["git", "curl", "jq"]), &vec![true, false, false]).unwrap();
    sudo(
        &command,
        "APT package installation",
        &["DEBIAN_FRONTEND=noninteractive", "apt-get", "install", "-y", "-qq", "--", "curl+", "jq+"],
    );
    assert!(packages(&names(&["git"]), &vec![true]).is_none());
    assert!(packages(&Vec::new(), &Vec::new()).is_none());
}

#[test]
fn purge_names_only_the_installed_packages() {
    let command = purge(&names(&["snapd", "nano"]), &vec![true, false]).unwrap();
    sudo(
        &command,
        "APT package purge",
        &["DEBIAN_FRONTEND=noninteractive", "apt-get", "purge", "-y", "-qq", "--", "snapd"],
    );
    assert!(purge(&names(&["nano"]), &vec![false]).is_none());
}

#[test]
fn update_and_install_refreshes_only_when_something_is_missing() {
    assert_eq!(update_and_install(&Vec::new(), &Vec::new()).unwrap_err(), EMPTY_UPDATE_INSTALL_ERROR);
    assert!(update_and_install(&names(&["git"]), &vec![true]).unwrap().is_empty());
    let commands = update_and_install(&names(&["git", "curl"]), &vec![false, true]).unwrap();
    assert_eq!(commands.len(), 2);
    sudo(&commands[0], "APT update before install", &["apt-get", "update", "-qq"]);
    sudo(
        &commands[1],
        "APT package install",
        &["DEBIAN_FRONTEND=noninteractive", "apt-get", "install", "-y", "-qq", "--", "git+"],
    );
}

#[test]
fn upgrades_run_in_order() {
    let plain = upgrade(AptUpgradeCommand::Upgrade);
    assert_eq!(plain.len(), 1);
    sudo(&plain[0], "APT upgrade", &["DEBIAN_FRONTEND=noninteractive", "apt-get", "upgrade", "-y", "-qq", "--"]);
    let full = upgrade(AptUpgradeCommand::FullUpgrade);
    assert_eq!(full.len(), 2);
    sudo(&full[0], "APT full-upgrade", &["DEBIAN_FRONTEND=noninteractive", "apt-get", "full-upgrade", "-y", "-qq", "--"]);
    sudo(
        &full[1],
        "APT purge autoremove",
        &["DEBIAN_FRONTEND=noninteractive", "apt-get", "autoremove", "--purge", "-y", "-qq", "--"],
    );
}

#[test]
fn package_states_are_read_from_dpkg_query() {
    assert_eq!(package_state("git", true, Some(0), b"installed\n", ""), Ok(true));
    assert_eq!(package_state("git", true, Some(0), b"config-files\n", ""), Ok(false));
    assert_eq!(package_state("git", true, Some(0), b"triggers-pending\n", ""), Ok(false));
    assert_eq!(package_state("git", false, Some(1), b"", "no packages found"), Ok(false));
    assert_eq!(
        package_state("git", false, Some(2), b"", "  boom\n"),
        Err("APT package inspection failed for \"git\": boom".to_string())
    );
    assert_eq!(
        package_state("git", true, Some(0), b"installed", ""),
        Err("APT package inspection returned malformed state for \"git\"".to_string())
    );
    assert_eq!(
        package_state("git", true, Some(0), &[0xff, 0x0a], ""),
        Err("APT package inspection returned malformed state for \"git\"".to_string())
    );
}

#[test]
fn unattended_upgrades_are_switched_by_the_periodic_settings() {
    assert_eq!(
        auto_upgrades_contents(true),
        "APT::Periodic::Update-Package-Lists \"1\";\nAPT::Periodic::Unattended-Upgrade \"1\";\n"
    );
    assert_eq!(
        auto_upgrades_contents(false),
        "APT::Periodic::Update-Package-Lists \"0\";\nAPT::Periodic::Unattended-Upgrade \"0\";\n"
    );
}

#[test]
fn purge_runs_before_the_install_is_decided() {
    let purged = names(&["snapd", "firefox"]);
    let wanted = names(&["firefox", "curl"]);
    let step = |stage, outcome| purge_then_install(stage, &purged, &wanted, outcome);
    let (stage, action) = step(PurgeThenInstallStage::Start, AptOutcome::Nothing);
    assert_eq!(stage, PurgeThenInstallStage::PurgeQueried);
    assert!(matches!(action, AptAction::Query(ref ps) if ps == &purged));
    let (stage, action) = step(stage, AptOutcome::States(Ok(vec![true, true])));
    assert_eq!(stage, PurgeThenInstallStage::Purging);
    match action {
        AptAction::Run(command) => sudo(
            &command,
            "APT package purge",
            &["DEBIAN_FRONTEND=noninteractive", "apt-get", "purge", "-y", "-qq", "--", "snapd", "firefox"],
        ),
        _ => panic!("expected the purge"),
    }
    let (stage, action) = step(stage, AptOutcome::Ran(Ok(())));
    assert_eq!(stage, PurgeThenInstallStage::InstallQueried);
    assert!(matches!(action, AptAction::Query(ref ps) if ps == &wanted));
    let (stage, action) = step(stage, AptOutcome::States(Ok(vec![false, true])));
    assert_eq!(stage, PurgeThenInstallStage::Installing);
    match action {
        AptAction::Run(command) => sudo(
            &command,
            "APT package installation",
            &["DEBIAN_FRONTEND=noninteractive", "apt-get", "install", "-y", "-qq", "--", "firefox+"],
        ),
        _ => panic!("expected the install"),
    }
    let (stage, action) = step(stage, AptOutcome::Ran(Err("install failed".to_string())));
    assert_eq!(stage, PurgeThenInstallStage::Finished);
    assert!(matches!(action, AptAction::Finish(Err(ref e)) if e == "install failed"));
}

#[test]
fn a_failed_purge_stops_before_the_install() {
    let purged = names(&["snapd"]);
    let wanted = names(&["curl"]);
    let step = |stage, outcome| purge_then_install(stage, &purged, &wanted, outcome);
    let (stage, _) = step(PurgeThenInstallStage::Start, AptOutcome::Nothing);
    let (stage, _) = step(stage, AptOutcome::States(Ok(vec![true])));
    let (stage, action) = step(stage, AptOutcome::Ran(Err("purge failed".to_string())));
    assert_eq!(stage, PurgeThenInstallStage::Finished);
    assert!(matches!(action, AptAction::Finish(Err(ref e)) if e == "purge failed"));
    let (stage, action) = step(PurgeThenInstallStage::PurgeQueried, AptOutcome::States(Err("dpkg".to_string())));
    assert_eq!(stage, PurgeThenInstallStage::Finished);
    assert!(matches!(action, AptAction::Finish(Err(ref e)) if e == "dpkg"));
    let (stage, action) = step(PurgeThenInstallStage::PurgeQueried, AptOutcome::States(Ok(vec![false])));
    assert_eq!(stage, PurgeThenInstallStage::InstallQueried);
    assert!(matches!(action, AptAction::Query(_)));
    let (stage, action) = step(stage, AptOutcome::States(Ok(vec![true])));
    assert_eq!(stage, PurgeThenInstallStage::Finished);
    assert!(matches!(action, AptAction::Finish(Ok(()))));
    let (stage, action) = purge_then_install(PurgeThenInstallStage::Start, &Vec::new(), &Vec::new(), AptOutcome::Nothing);
    assert_eq!(stage, PurgeThenInstallStage::Finished);
    assert!(matches!(action, AptAction::Finish(Ok(()))));
}
