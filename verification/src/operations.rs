//! The provisioning operations: what each one checks, decides and asks the
//! host to do.
pub mod apps;
pub mod apt;
pub mod binary;
pub mod cargo;
pub mod cargo_binstall;
pub mod flatpak;
pub mod command;
pub mod desktop;
pub mod desktop_macos;
pub mod downloads;
pub mod dotfiles;
pub mod fonts;
pub mod gnome;
pub mod go;
pub mod integrations;
pub mod macos;
pub mod managed_apt;
pub mod npm;
pub mod packages;
pub mod shell;
pub mod languages;
