//! Dotfiles with GNU Stow: when unmanaged files in the way stop the work,
//! and the Stow commands that link each package into the home directory.
use vstd::prelude::*;
use crate::operations::command::{checked, words, Command, CommandView};
use crate::text::{concat, join, string_views};

verus! {

pub const CONFLICTS_HEAD: &'static str = "unmanaged dotfile conflicts:\n";

pub const CONFLICTS_TAIL: &'static str = "\nno dotfiles were changed; rerun with `cozydot dotfiles --replace`";

pub const NO_STOW: &'static str = "dotfiles require GNU Stow";

/// Each conflicting path indented by two spaces.
pub open spec fn indented_paths(ps: Seq<Seq<char>>) -> Seq<Seq<char>> {
    ps.map_values(|p: Seq<char>| "  "@ + p)
}

/// The report of the conflicts (sorted and without repeats by the caller),
/// one per line.
pub open spec fn conflicts_report_of(ps: Seq<Seq<char>>) -> Seq<char> {
    CONFLICTS_HEAD@ + join(indented_paths(ps), "\n"@) + CONFLICTS_TAIL@
}

/// Unmanaged files in the way stop the work unless they are to be replaced
/// (moved to a backup first): the result says whether to back them up.
pub open spec fn conflicts_decision_of(ps: Seq<Seq<char>>, replace: bool) -> Result<bool, Seq<char>> {
    if ps.len() > 0 && !replace {
        Err(conflicts_report_of(ps))
    } else {
        Ok(replace && ps.len() > 0)
    }
}

pub fn conflicts_decision(conflicts: &Vec<String>, replace: bool) -> (r: Result<bool, String>)
    ensures
        match r {
            Ok(b) => conflicts_decision_of(string_views(conflicts@), replace) == Ok::<bool, Seq<char>>(b),
            Err(e) => conflicts_decision_of(string_views(conflicts@), replace) == Err::<bool, Seq<char>>(e@),
        },
{
    if conflicts.len() > 0 && !replace {
        let mut lines: Vec<String> = Vec::new();
        let mut i: usize = 0;
        while i < conflicts.len()
            invariant
                i <= conflicts@.len(),
                string_views(lines@) =~= indented_paths(string_views(conflicts@)).take(i as int),
            decreases conflicts@.len() - i,
        {
            let ghost before = string_views(lines@);
            let line = concat("  ", conflicts[i].as_str());
            lines.push(line);
            proof {
                reveal_strlit("  ");
                assert(string_views(conflicts@)[i as int] == conflicts@[i as int]@);
                assert(string_views(lines@) =~= before.push(line@));
                assert(indented_paths(string_views(conflicts@)).take(i + 1) =~= indented_paths(string_views(conflicts@)).take(i as int).push(line@));
            }
            i += 1;
        }
        assert(indented_paths(string_views(conflicts@)).take(i as int) =~= indented_paths(string_views(conflicts@)));
        let body = crate::text::join_strings(&lines, "\n");
        let mut m = CONFLICTS_HEAD.to_owned();
        m.append(body.as_str());
        m.append(CONFLICTS_TAIL);
        return Err(m);
    }
    Ok(replace && conflicts.len() > 0)
}

/// The check that GNU Stow can be used (`NO_STOW` where it fails).
pub fn stow_preflight() -> (r: Command)
    ensures
        r@ == (CommandView { label: "Stow preflight"@, program: "stow"@, args: seq!["--version"@], check: true }),
{
    let r = checked("Stow preflight", "stow", words(&["--version"]));
    assert(r@.args =~= seq!["--version"@]);
    r
}

/// The Stow command that links the package from the dotfiles root into the
/// home directory.
pub fn stow_package(root: &str, home: &str, package: &str) -> (r: Command)
    ensures
        r@ == (CommandView {
            label: "dotfiles Stow mutation"@,
            program: "stow"@,
            args: seq!["--dir"@, root@, "--target"@, home@, "--stow"@, "--"@, package@],
            check: true,
        }),
{
    let r = checked("dotfiles Stow mutation", "stow", words(&["--dir", root, "--target", home, "--stow", "--", package]));
    assert(r@.args =~= seq!["--dir"@, root@, "--target"@, home@, "--stow"@, "--"@, package@]);
    r
}

} // verus!
