//! GNOME Shell extensions: which UUIDs are accepted, where an extension is
//! fetched from, and the settings written for the extensions this tool
//! configures.
use vstd::prelude::*;
use crate::operations::command::{checked, command_views, words, Command, CommandView};
use crate::text::{
    all_chars, alnum, chars_of, concat, debug_str, debug_text, decimal_text, decimal_u64, is_alnum,
    split, split_chars, string_of, views,
};

verus! {

/// How applying an extension ended: done, or the extension was installed
/// and GNOME finds it only after the next login.
#[derive(Clone, Copy, Debug, PartialEq, Eq, Structural)]
pub enum Outcome {
    Completed,
    LoginRequired,
}

/// The outcome of several extensions: a login is required where any one
/// requires it.
pub fn combine_outcomes(outcomes: &Vec<Outcome>) -> (r: Outcome)
    ensures
        (r == Outcome::LoginRequired) <==> outcomes@.contains(Outcome::LoginRequired),
{
    let mut r = Outcome::Completed;
    let mut i: usize = 0;
    while i < outcomes.len()
        invariant
            i <= outcomes@.len(),
            (r == Outcome::LoginRequired) <==> exists|k: int| 0 <= k < i && #[trigger] outcomes@[k] == Outcome::LoginRequired,
        decreases outcomes@.len() - i,
    {
        if outcomes[i] == Outcome::LoginRequired {
            r = Outcome::LoginRequired;
        }
        i += 1;
    }
    r
}

pub open spec fn uuid_part_ok(part: Seq<char>) -> bool {
    part.len() > 0 && forall|k: int| 0 <= k < part.len() ==> (is_alnum(#[trigger] part[k]) || part[k] == '-' || part[k] == '_' || part[k] == '.')
}

/// A GNOME extension UUID: two parts around one `@`, each of ASCII
/// alphanumerics, `-`, `_` and `.`; such a UUID is safe in URLs and file
/// names.
pub open spec fn valid_uuid(value: Seq<char>) -> bool {
    let parts = split(value, '@');
    parts.len() == 2 && uuid_part_ok(parts[0]) && uuid_part_ok(parts[1])
}

fn uuid_part_exec(part: &[char]) -> (r: bool)
    ensures
        r == uuid_part_ok(part@),
{
    let f = |c: char| -> (b: bool)
        ensures
            b == (is_alnum(c) || c == '-' || c == '_' || c == '.'),
        { alnum(c) || c == '-' || c == '_' || c == '.' };
    part.len() > 0 && all_chars(part, f, Ghost(|c: char| is_alnum(c) || c == '-' || c == '_' || c == '.'))
}

pub fn validate_extension(value: &str) -> (r: Result<(), String>)
    ensures
        match r {
            Ok(_) => valid_uuid(value@),
            Err(e) => !valid_uuid(value@) && e@ == "invalid GNOME extension UUID "@ + debug_text(value@),
        },
{
    let parts = split_chars(&chars_of(value), '@');
    let ok = parts.len() == 2 && {
        assert(views(parts@)[0] == parts@[0]@ && views(parts@)[1] == parts@[1]@);
        uuid_part_exec(&parts[0]) && uuid_part_exec(&parts[1])
    };
    if ok {
        Ok(())
    } else {
        Err(concat("invalid GNOME extension UUID ", debug_str(value).as_str()))
    }
}

pub const DASH_TO_DOCK_UUID: &'static str = "dash-to-dock@micxgx.gmail.com";

pub const ROUNDED_CORNERS_UUID: &'static str = "rounded-window-corners@fxgn";

pub open spec fn enable(uuid: Seq<char>) -> CommandView {
    CommandView { label: "GNOME extension enable"@, program: "gnome-extensions"@, args: seq!["enable"@, uuid], check: true }
}

/// The command that enables an installed extension.
pub fn enable_command(uuid: &str) -> (r: Command)
    ensures
        r@ == enable(uuid@),
{
    let r = checked("GNOME extension enable", "gnome-extensions", words(&["enable", uuid]));
    assert(r@.args =~= seq!["enable"@, uuid@]);
    r
}

/// The query whose success shows that the extension is installed.
pub fn info_args(uuid: &str) -> (r: Vec<String>)
    ensures
        r@.len() == 2 && r@[0]@ == "info"@ && r@[1]@ == uuid@,
{
    words(&["info", uuid])
}

/// Where the extension's metadata is published.
pub fn metadata_endpoint(uuid: &str) -> (r: String)
    ensures
        r@ == "https://extensions.gnome.org/extension-info/?uuid="@ + uuid@,
{
    concat("https://extensions.gnome.org/extension-info/?uuid=", uuid)
}

/// The text without its `@`s.
pub open spec fn without_at(v: Seq<char>) -> Seq<char> {
    v.filter(not_at())
}

pub open spec fn not_at() -> spec_fn(char) -> bool {
    |c: char| c != '@'
}

/// The archive of the extension's version for the running shell.
pub open spec fn download_url(uuid: Seq<char>, version: u64) -> Seq<char> {
    "https://extensions.gnome.org/extension-data/"@ + without_at(uuid) + ".v"@ + decimal_text(version as nat)
        + ".shell-extension.zip"@
}

pub fn extension_download_url(uuid: &str, version: u64) -> (r: String)
    ensures
        r@ == download_url(uuid@, version),
{
    let v = chars_of(uuid);
    let mut name: Vec<char> = Vec::new();
    let mut i: usize = 0;
    proof {
        reveal(Seq::filter);
    }
    assert(v@.take(0).filter(not_at()) =~= Seq::<char>::empty());
    while i < v.len()
        invariant
            i <= v@.len(),
            name@ == v@.take(i as int).filter(not_at()),
        decreases v@.len() - i,
    {
        proof {
            reveal(Seq::filter);
        }
        assert(v@.take(i + 1).drop_last() =~= v@.take(i as int));
        if v[i] != '@' {
            name.push(v[i]);
        }
        i += 1;
    }
    assert(v@.take(i as int) =~= uuid@);
    let mut url = concat("https://extensions.gnome.org/extension-data/", string_of(&name).as_str());
    url.append(".v");
    url.append(decimal_u64(version).as_str());
    url.append(".shell-extension.zip");
    url
}

/// The command that installs a downloaded extension archive.
pub fn install_command(archive: &str) -> (r: Command)
    ensures
        r@ == (CommandView { label: "GNOME extension install"@, program: "gnome-extensions"@,
            args: seq!["install"@, "--force"@, archive@], check: true }),
{
    let r = checked("GNOME extension install", "gnome-extensions", words(&["install", "--force", archive]));
    assert(r@.args =~= seq!["install"@, "--force"@, archive@]);
    r
}

pub open spec fn dconf_write(path: Seq<char>, value: Seq<char>) -> CommandView {
    CommandView { label: "dconf write"@, program: "dconf"@, args: seq!["write"@, path, value], check: true }
}

fn dconf_command(path: &str, value: &str) -> (r: Command)
    ensures
        r@ == dconf_write(path@, value@),
{
    let r = checked("dconf write", "dconf", words(&["write", path, value]));
    assert(r@.args =~= seq!["write"@, path@, value@]);
    r
}

pub open spec fn dock_key(key: Seq<char>) -> Seq<char> {
    "/org/gnome/shell/extensions/dash-to-dock/"@ + key
}

/// The Dash to Dock settings: a bottom dock of small icons that hides
/// itself intelligently.
pub open spec fn dash_to_dock_settings() -> Seq<CommandView> {
    seq![
        dconf_write(dock_key("dock-position"@), "'BOTTOM'"@),
        dconf_write(dock_key("dash-max-icon-size"@), "32"@),
        dconf_write(dock_key("dock-fixed"@), "false"@),
        dconf_write(dock_key("autohide"@), "true"@),
        dconf_write(dock_key("require-pressure-to-show"@), "false"@),
        dconf_write(dock_key("intellihide"@), "true"@),
        dconf_write(dock_key("intellihide-mode"@), "'FOCUS_APPLICATION_WINDOWS'"@),
        dconf_write(dock_key("extend-height"@), "false"@),
        dconf_write(dock_key("click-action"@), "'minimize-or-previews'"@),
    ]
}

fn dock_command(key: &str, value: &str) -> (r: Command)
    ensures
        r@ == dconf_write(dock_key(key@), value@),
{
    let path = concat("/org/gnome/shell/extensions/dash-to-dock/", key);
    dconf_command(path.as_str(), value)
}

pub fn dash_to_dock_commands() -> (r: Vec<Command>)
    ensures
        command_views(r@) == dash_to_dock_settings(),
{
    let r = vec![
        dock_command("dock-position", "'BOTTOM'"),
        dock_command("dash-max-icon-size", "32"),
        dock_command("dock-fixed", "false"),
        dock_command("autohide", "true"),
        dock_command("require-pressure-to-show", "false"),
        dock_command("intellihide", "true"),
        dock_command("intellihide-mode", "'FOCUS_APPLICATION_WINDOWS'"),
        dock_command("extend-height", "false"),
        dock_command("click-action", "'minimize-or-previews'"),
    ];
    assert(command_views(r@) =~= dash_to_dock_settings());
    r
}

pub const ROUNDED_CORNERS_SETTINGS: &'static str = "/org/gnome/shell/extensions/rounded-window-corners-reborn/global-rounded-corner-settings";

pub const ROUNDED_CORNERS_VALUE: &'static str = "{'padding': <{'left': uint32 1, 'right': 1, 'top': 1, 'bottom': 1}>, 'keepRoundedCorners': <{'maximized': false, 'fullscreen': false}>, 'borderRadius': <uint32 16>, 'smoothing': <0.5>, 'borderColor': <(0.5, 0.5, 0.5, 1.0)>, 'enabled': <true>}";

/// The global rounded-corner settings.
pub fn rounded_corners_command() -> (r: Command)
    ensures
        r@ == dconf_write(ROUNDED_CORNERS_SETTINGS@, ROUNDED_CORNERS_VALUE@),
{
    dconf_command(ROUNDED_CORNERS_SETTINGS, ROUNDED_CORNERS_VALUE)
}

} // verus!
