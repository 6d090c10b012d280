//! Desktop applications: the terminal that GNOME opens, and Visual Studio
//! Code extensions.
use vstd::prelude::*;
use crate::operations::command::{checked, command_views, Command, CommandView};
use crate::text::{chars_of, concat, concat3, eq_chars, lines, lines_of, string_views, views};

verus! {

/// The error where the configured terminal command is not installed.
pub fn missing_terminal(terminal: &str) -> (r: String)
    ensures
        r@ == "GNOME terminal: configured command "@ + terminal@ + " is unavailable"@,
{
    concat3("GNOME terminal: configured command ", terminal, " is unavailable")
}

pub const CUSTOM_KEYBINDINGS: &'static str = "/org/gnome/settings-daemon/plugins/media-keys/custom-keybindings";

pub const CUSTOM0: &'static str = "/org/gnome/settings-daemon/plugins/media-keys/custom-keybindings/custom0/";

pub open spec fn gsettings_terminal(key: Seq<char>, value: Seq<char>) -> CommandView {
    CommandView {
        label: "GNOME terminal"@,
        program: "gsettings"@,
        args: seq!["set"@, "org.gnome.desktop.default-applications.terminal"@, key, value],
        check: true,
    }
}

pub open spec fn dconf_write(key: Seq<char>, value: Seq<char>) -> CommandView {
    CommandView { label: "GNOME terminal"@, program: "dconf"@, args: seq!["write"@, key, value], check: true }
}

/// The commands that make `terminal` the one GNOME opens: through the
/// default-applications settings where the media-keys schema has a
/// terminal key (`media_key_terminal`: `gsettings get` succeeded), else
/// through a custom Ctrl+Alt+T keybinding.
pub open spec fn terminal_commands(terminal: Seq<char>, media_key_terminal: bool) -> Seq<CommandView> {
    if media_key_terminal {
        seq![gsettings_terminal("exec"@, terminal), gsettings_terminal("exec-arg"@, ""@)]
    } else {
        seq![
            dconf_write(CUSTOM_KEYBINDINGS@, "['"@ + CUSTOM0@ + "']"@),
            dconf_write(CUSTOM0@ + "name"@, "'Terminal'"@),
            dconf_write(CUSTOM0@ + "command"@, "'"@ + terminal + "'"@),
            dconf_write(CUSTOM0@ + "binding"@, "'<Primary><Alt>T'"@),
        ]
    }
}

fn gsettings_set(key: &str, value: &str) -> (r: Command)
    ensures
        r@ == gsettings_terminal(key@, value@),
{
    let args = vec![
        "set".to_owned(),
        "org.gnome.desktop.default-applications.terminal".to_owned(),
        key.to_owned(),
        value.to_owned(),
    ];
    assert(string_views(args@) =~= seq!["set"@, "org.gnome.desktop.default-applications.terminal"@, key@, value@]);
    checked("GNOME terminal", "gsettings", args)
}

fn dconf(key: String, value: String) -> (r: Command)
    ensures
        r@ == dconf_write(key@, value@),
{
    let args = vec!["write".to_owned(), key, value];
    assert(string_views(args@) =~= seq!["write"@, args@[1]@, args@[2]@]);
    checked("GNOME terminal", "dconf", args)
}

/// The terminal's commands, in order.
pub fn gnome_terminal_commands(terminal: &str, media_key_terminal: bool) -> (r: Vec<Command>)
    ensures
        command_views(r@) == terminal_commands(terminal@, media_key_terminal),
{
    if media_key_terminal {
        let r = vec![gsettings_set("exec", terminal), gsettings_set("exec-arg", "")];
        assert(command_views(r@) =~= terminal_commands(terminal@, media_key_terminal));
        r
    } else {
        let r = vec![
            dconf(CUSTOM_KEYBINDINGS.to_owned(), concat3("['", CUSTOM0, "']")),
            dconf(concat(CUSTOM0, "name"), "'Terminal'".to_owned()),
            dconf(concat(CUSTOM0, "command"), concat3("'", terminal, "'")),
            dconf(concat(CUSTOM0, "binding"), "'<Primary><Alt>T'".to_owned()),
        ];
        assert(command_views(r@) =~= terminal_commands(terminal@, media_key_terminal));
        r
    }
}

pub const NO_CODE: &'static str = "VS Code extension: code is unavailable after installation";

/// Whether `code --list-extensions` lists the extension: one of its output
/// lines (read lossily as UTF-8) is exactly the identifier.
pub open spec fn extension_listed(lines_seen: Seq<Seq<char>>, extension: Seq<char>) -> bool {
    lines_seen.contains(extension)
}

/// The command that installs the extension, where the listing lacks it.
pub open spec fn extension_install(extension: Seq<char>) -> CommandView {
    CommandView {
        label: "VS Code extension"@,
        program: "code"@,
        args: seq!["--install-extension"@, extension],
        check: true,
    }
}

/// The install command for an extension that the listing (the text of
/// `code --list-extensions`) does not hold as a line; none where it does.
pub fn vscode_extension_install(listing: &str, extension: &str) -> (r: Option<Command>)
    ensures
        match r {
            Some(c) => !extension_listed(lines(listing@), extension@) && c@ == extension_install(extension@),
            None => extension_listed(lines(listing@), extension@),
        },
{
    let target = chars_of(extension);
    let all = lines_of(&chars_of(listing));
    let ghost ls = lines(listing@);
    let mut i: usize = 0;
    while i < all.len()
        invariant
            i <= all@.len(),
            views(all@) == ls,
            ls == lines(listing@),
            target@ == extension@,
            forall|k: int| 0 <= k < i ==> ls[k] != extension@,
        decreases all@.len() - i,
    {
        if eq_chars(&all[i], &target) {
            assert(ls[i as int] == extension@);
            assert(ls.contains(extension@));
            return None;
        }
        i += 1;
    }
    assert(!ls.contains(extension@));
    let args = vec!["--install-extension".to_owned(), extension.to_owned()];
    assert(string_views(args@) =~= seq!["--install-extension"@, extension@]);
    Some(checked("VS Code extension", "code", args))
}

} // verus!
