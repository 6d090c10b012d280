//! Desktop settings of GNOME and Cinnamon, written with `gsettings set`.
use vstd::prelude::*;
use crate::config::Theme;
use crate::operations::command::{checked, command_views, words, Command, CommandView};
use crate::text::{concat, concat3, debug_str, debug_text, decimal_text, decimal_u64};

verus! {

/// The desktop whose settings are written.
#[derive(Clone, Copy, Debug, PartialEq, Eq, Structural)]
pub enum DesktopEnvironment {
    Gnome,
    Cinnamon,
}

/// The prefix of the desktop's settings schemas.
pub open spec fn schema_prefix(e: DesktopEnvironment) -> Seq<char> {
    match e {
        DesktopEnvironment::Gnome => "org.gnome"@,
        DesktopEnvironment::Cinnamon => "org.cinnamon"@,
    }
}

pub fn prefix(environment: DesktopEnvironment) -> (r: &'static str)
    ensures
        r@ == schema_prefix(environment),
{
    match environment {
        DesktopEnvironment::Gnome => "org.gnome",
        DesktopEnvironment::Cinnamon => "org.cinnamon",
    }
}

/// `gsettings set schema key value`, whose failure stops the operation.
pub open spec fn gsettings_set(schema: Seq<char>, key: Seq<char>, value: Seq<char>) -> CommandView {
    CommandView { label: "gsettings set"@, program: "gsettings"@, args: seq!["set"@, schema, key, value], check: true }
}

fn set_command(schema: &str, key: &str, value: &str) -> (r: Command)
    ensures
        r@ == gsettings_set(schema@, key@, value@),
{
    let args = words(&["set", schema, key, value]);
    let r = checked("gsettings set", "gsettings", args);
    assert(r@.args =~= seq!["set"@, schema@, key@, value@]);
    r
}

pub open spec fn scheme_value(theme: Theme) -> Seq<char> {
    match theme {
        Theme::Light => "'prefer-light'"@,
        Theme::Dark => "'prefer-dark'"@,
    }
}

/// The command that sets the desktop's preferred color scheme.
pub fn color_scheme_command(environment: DesktopEnvironment, theme: Theme) -> (r: Command)
    ensures
        r@ == gsettings_set(schema_prefix(environment) + ".desktop.interface"@, "color-scheme"@, scheme_value(theme)),
{
    let schema = concat(prefix(environment), ".desktop.interface");
    let value = match theme {
        Theme::Light => "'prefer-light'",
        Theme::Dark => "'prefer-dark'",
    };
    set_command(schema.as_str(), "color-scheme", value)
}

/// The error where the configured terminal is not on the search path.
pub fn unavailable_terminal(executable: &str) -> (r: String)
    ensures
        r@ == "desktop terminal executable "@ + debug_text(executable@) + " is unavailable"@,
{
    concat3("desktop terminal executable ", debug_str(executable).as_str(), " is unavailable")
}

pub open spec fn terminal_commands(environment: DesktopEnvironment, executable: Seq<char>) -> Seq<CommandView> {
    let schema = schema_prefix(environment) + ".desktop.default-applications.terminal"@;
    seq![gsettings_set(schema, "exec"@, "'"@ + executable + "'"@), gsettings_set(schema, "exec-arg"@, "''"@)]
}

/// The commands that make `executable` the desktop's default terminal.
pub fn terminal_commands_for(environment: DesktopEnvironment, executable: &str) -> (r: Vec<Command>)
    ensures
        command_views(r@) == terminal_commands(environment, executable@),
{
    let schema = concat(prefix(environment), ".desktop.default-applications.terminal");
    let quoted = concat3("'", executable, "'");
    let a = set_command(schema.as_str(), "exec", quoted.as_str());
    let b = set_command(schema.as_str(), "exec-arg", "''");
    let r = vec![a, b];
    assert(command_views(r@) =~= terminal_commands(environment, executable@));
    r
}

/// The command that sets the idle delay, in seconds.
pub fn idle_delay_command(environment: DesktopEnvironment, seconds: u32) -> (r: Command)
    ensures
        r@ == gsettings_set(schema_prefix(environment) + ".desktop.session"@, "idle-delay"@,
            "uint32 "@ + decimal_text(seconds as nat)),
{
    let schema = concat(prefix(environment), ".desktop.session");
    let value = concat("uint32 ", decimal_u64(seconds as u64).as_str());
    set_command(schema.as_str(), "idle-delay", value.as_str())
}

/// The command that turns dimming of an idle screen on or off.
pub fn idle_dim_command(environment: DesktopEnvironment, enabled: bool) -> (r: Command)
    ensures
        r@ == gsettings_set(schema_prefix(environment) + ".settings-daemon.plugins.power"@, "idle-dim"@,
            if enabled { "true"@ } else { "false"@ }),
{
    let schema = concat(prefix(environment), ".settings-daemon.plugins.power");
    set_command(schema.as_str(), "idle-dim", if enabled { "true" } else { "false" })
}

} // verus!
