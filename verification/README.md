# cozydot

cozydot provisions a Linux or macOS workstation from one declarative file,
`cozydot.yaml`: system packages and APT sources, Flatpak applications, Cargo
and npm tools, fonts, dotfiles, desktop settings and integrations with Docker,
VirtualBox and VS Code. Applying the file twice changes nothing the second
time.

The library is written in Verus. The rules that the configuration must
satisfy, the parsers of what host commands print, and the decisions about
which commands to run that the library holds are verified functions whose
contracts state their results exactly, error messages included. Walking the
file system, running the commands and the orchestration of `apply`, `init`,
`update` and `dotfiles` stay in the program around the library; the
command-line program so far offers `check`.

## Layout

- `src/config.rs`, `src/config/model.rs`, `src/config/v1.rs` and their
  `rules` modules: the configuration formats and the rules they must satisfy,
  in general and on the detected platform; `src/config/model/preflight.rs`
  checks the YAML text before it is read.
- `src/operations/`: one module per kind of operation (APT and its managed
  sources, Flatpak, Cargo, npm, fonts, binaries and downloads, Go, dotfiles,
  GNOME, desktop settings on Linux and macOS, integrations, macOS). Each
  parses what the host reports and returns the commands to run as values;
  `managed_apt/convergence.rs` proves that migrating the APT sources a
  second time changes nothing, and `managed_apt/discovery.rs` reads the
  source files that `find -print0` reports. Where a step waits on the host
  (the Homebrew installs, a purge followed by an install, the Flathub remote,
  the publication of a font family), the module offers a step function from
  the last outcome to the next action, with a law on the whole run.
- `src/release.rs`: the members that a release archive may hold.
- `src/init.rs`: the presets, the record of managed files (with the law
  that reading the record gives back what was written), and when a preset
  or a bundled dotfiles package may be synced again.
- `src/text.rs`, `src/sorted.rs`, `src/json.rs`, `src/platform.rs`,
  `src/domain.rs`: text, ordering, JSON values, platforms and literal HTTPS
  URLs, the vocabulary of the contracts.
- `src/weburl.rs`, `src/patterns.rs`, `src/versions.rs`, `src/digest.rs`,
  `src/paths.rs`, `src/config/model/preflight.rs`: the calls into `url`,
  `regex`, `semver`, `humantime`, `sha2`, `std::path` and `yaml-rust2`, each
  behind a small trusted function whose contract names what it returns.
- `app/`: the command-line program; it reads files, runs commands and hands
  their output to the library.
- `tests/`: tests on concrete values, one file per area.
