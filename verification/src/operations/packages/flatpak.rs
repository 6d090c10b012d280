//! Flathub and its applications for the current user, without inspecting
//! the remote: it is added if missing and then set to its expected form.
use vstd::prelude::*;
use crate::operations::apt::not_installed;
use crate::operations::command::{checked, command_views, words, Command, CommandView};
use crate::text::string_views;

verus! {

pub open spec fn flatpak_command(label: Seq<char>, args: Seq<Seq<char>>) -> CommandView {
    CommandView { label, program: "flatpak"@, args, check: true }
}

/// The commands that add the Flathub remote where it is missing and then
/// set its URL, GPG verification, enumeration, dependency use, enablement
/// and filter.
pub open spec fn flathub_commands() -> Seq<CommandView> {
    seq![
        flatpak_command(
            "Flathub remote ensure"@,
            seq!["--user"@, "remote-add"@, "--if-not-exists"@, "flathub"@, "https://dl.flathub.org/repo/flathub.flatpakrepo"@],
        ),
        flatpak_command(
            "Flathub remote security canonicalization"@,
            seq![
                "--user"@,
                "remote-modify"@,
                "--url=https://dl.flathub.org/repo/"@,
                "--gpg-verify"@,
                "--enumerate"@,
                "--use-for-deps"@,
                "--enable"@,
                "--no-filter"@,
                "flathub"@,
            ],
        ),
    ]
}

pub fn ensure_flathub() -> (r: Vec<Command>)
    ensures
        command_views(r@) == flathub_commands(),
{
    let add = checked(
        "Flathub remote ensure",
        "flatpak",
        words(&["--user", "remote-add", "--if-not-exists", "flathub", "https://dl.flathub.org/repo/flathub.flatpakrepo"]),
    );
    assert(add@.args =~= flathub_commands()[0].args);
    let modify = checked(
        "Flathub remote security canonicalization",
        "flatpak",
        words(
            &[
                "--user",
                "remote-modify",
                "--url=https://dl.flathub.org/repo/",
                "--gpg-verify",
                "--enumerate",
                "--use-for-deps",
                "--enable",
                "--no-filter",
                "flathub",
            ],
        ),
    );
    assert(modify@.args =~= flathub_commands()[1].args);
    let r = vec![add, modify];
    assert(command_views(r@) =~= flathub_commands());
    r
}

/// The query whose success means that the application is installed.
pub fn app_query(app_id: &str) -> (r: Vec<String>)
    ensures
        string_views(r@) == seq!["--user"@, "info"@, "--show-ref"@, "--"@, app_id@],
{
    let r = words(&["--user", "info", "--show-ref", "--", app_id]);
    assert(string_views(r@) =~= seq!["--user"@, "info"@, "--show-ref"@, "--"@, app_id@]);
    r
}

pub open spec fn install_apps_command(missing: Seq<Seq<char>>) -> CommandView {
    flatpak_command(
        "Flatpak application installation"@,
        seq!["--user"@, "install"@, "--app"@, "--noninteractive"@, "-y"@, "flathub"@, "--"@] + missing,
    )
}

/// The install of the applications whose query failed (`installed[i]` is
/// the outcome of the query of `refs[i]`), or `None` where every one is
/// installed.
pub fn ensure_apps(refs: &Vec<String>, installed: &Vec<bool>) -> (r: Option<Command>)
    requires
        installed@.len() == refs@.len(),
    ensures
        match r {
            None => not_installed(string_views(refs@), installed@).len() == 0,
            Some(c) => not_installed(string_views(refs@), installed@).len() > 0
                && c@ == install_apps_command(not_installed(string_views(refs@), installed@)),
        },
{
    let mut args = words(&["--user", "install", "--app", "--noninteractive", "-y", "flathub", "--"]);
    let ghost head = string_views(args@);
    assert(head =~= seq!["--user"@, "install"@, "--app"@, "--noninteractive"@, "-y"@, "flathub"@, "--"@]);
    let ghost names = string_views(refs@);
    let mut i: usize = 0;
    let mut any = false;
    assert(names.take(0) =~= Seq::<Seq<char>>::empty());
    assert(string_views(args@) =~= head + not_installed(names.take(0), installed@.take(0)));
    while i < refs.len()
        invariant
            i <= refs@.len(),
            installed@.len() == refs@.len(),
            names == string_views(refs@),
            string_views(args@) == head + not_installed(names.take(i as int), installed@.take(i as int)),
            any == (not_installed(names.take(i as int), installed@.take(i as int)).len() > 0),
        decreases refs@.len() - i,
    {
        let ghost before = string_views(args@);
        assert(names.take(i + 1).drop_last() =~= names.take(i as int));
        assert(installed@.take(i + 1).drop_last() =~= installed@.take(i as int));
        if !installed[i] {
            args.push(refs[i].clone());
            any = true;
            assert(string_views(args@) =~= before.push(names[i as int]));
        }
        i += 1;
    }
    assert(names.take(i as int) =~= names);
    assert(installed@.take(i as int) =~= installed@);
    if !any {
        return None;
    }
    Some(checked("Flatpak application installation", "flatpak", args))
}

pub fn update_apps() -> (r: Command)
    ensures
        r@ == flatpak_command("Flatpak application update"@, seq!["--user"@, "update"@, "--app"@, "--noninteractive"@, "-y"@]),
{
    let r = checked("Flatpak application update", "flatpak", words(&["--user", "update", "--app", "--noninteractive", "-y"]));
    assert(r@.args =~= seq!["--user"@, "update"@, "--app"@, "--noninteractive"@, "-y"@]);
    r
}

} // verus!
