use cozydot::operations::apps::{gnome_terminal_commands, missing_terminal, vscode_extension_install};
use cozydot::operations::fonts::{check_data_home, destination_replacing, family_archive_url};

#[test]
fn gnome_terminal_uses_settings_or_a_custom_keybinding() {
    let settings = gnome_terminal_commands("kitty", true);
    assert_eq!(settings.len(), 2);
    assert_eq!(settings[0].program, "gsettings");
    assert_eq!(settings[0].args, ["set", "org.gnome.desktop.default-applications.terminal", "exec", "kitty"]);
    assert_eq!(settings[1].args[3], "");
    let binding = gnome_terminal_commands("kitty", false);
    assert_eq!(binding.len(), 4);
    assert!(binding.iter().all(|c| c.program == "dconf" && c.check));
    assert_eq!(
        binding[0].args[2],
        "['/org/gnome/settings-daemon/plugins/media-keys/custom-keybindings/custom0/']"
    );
    assert_eq!(binding[2].args[2], "'kitty'");
    assert_eq!(missing_terminal("kitty"), "GNOME terminal: configured command kitty is unavailable");
}

#[test]
fn vscode_extensions_install_only_when_missing() {
    assert!(vscode_extension_install("ms-python.python\nrust-lang.rust-analyzer\n", "rust-lang.rust-analyzer").is_none());
    let install = vscode_extension_install("ms-python.python\n", "rust-lang.rust-analyzer").unwrap();
    assert_eq!(install.args, ["--install-extension", "rust-lang.rust-analyzer"]);
}

#[test]
fn font_family_installation_decisions() {
    check_data_home("/home/user/.local/share").unwrap();
    assert_eq!(check_data_home("share").unwrap_err(), "Nerd Fonts XDG data directory must be absolute");
    assert_eq!(
        family_archive_url("JetBrainsMono").unwrap(),
        "https://github.com/ryanoasis/nerd-fonts/releases/latest/download/JetBrainsMono.tar.xz"
    );
    assert_eq!(destination_replacing(None, "/d").unwrap(), false);
    assert_eq!(destination_replacing(Some(true), "/d").unwrap(), true);
    assert_eq!(destination_replacing(Some(false), "/d").unwrap_err(), "Nerd Font destination conflict at /d");
}
