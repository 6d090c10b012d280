use cozydot::operations::dotfiles::{conflicts_decision, stow_package, stow_preflight};

#[test]
fn conflicts_stop_the_work_unless_replaced() {
    assert_eq!(conflicts_decision(&Vec::new(), false), Ok(false));
    assert_eq!(conflicts_decision(&Vec::new(), true), Ok(false));
    let conflicts = vec!["/home/u/.bashrc".to_string(), "/home/u/.profile".to_string()];
    assert_eq!(conflicts_decision(&conflicts, true), Ok(true));
    assert_eq!(
        conflicts_decision(&conflicts, false).unwrap_err(),
        "unmanaged dotfile conflicts:\n  /home/u/.bashrc\n  /home/u/.profile\nno dotfiles were changed; rerun with `cozydot dotfiles --replace`"
    );
}

#[test]
fn stow_links_each_package_into_the_home_directory() {
    assert_eq!(stow_preflight().args, vec!["--version"]);
    let command = stow_package("/c/dotfiles", "/home/u", "bash");
    assert_eq!(command.label, "dotfiles Stow mutation");
    assert_eq!(command.args, vec!["--dir", "/c/dotfiles", "--target", "/home/u", "--stow", "--", "bash"]);
}
