//! APT packages: what `dpkg-query` reports of a package, and the
//! `apt-get` commands that install, purge and upgrade.
use vstd::prelude::*;
use crate::operations::command::{checked, command_views, words, Command, CommandView};
use crate::text::{
    chars_of, concat, concat3, debug_str, debug_text, eq_str, string_views, trim, trim_chars,
    string_of, utf8_text,
};

verus! {

#[derive(Clone, Copy, Debug, PartialEq, Eq, Structural)]
pub enum AptUpgradeCommand {
    Upgrade,
    FullUpgrade,
}

pub open spec fn sudo(label: Seq<char>, args: Seq<Seq<char>>) -> CommandView {
    CommandView { label, program: "sudo"@, args, check: true }
}

pub open spec fn update_args() -> Seq<Seq<char>> {
    seq!["apt-get"@, "update"@, "-qq"@]
}

/// The command that refreshes the package lists.
pub fn update() -> (r: Command)
    ensures
        r@ == sudo("APT update"@, update_args()),
{
    let args = words(&["apt-get", "update", "-qq"]);
    let r = checked("APT update", "sudo", args);
    assert(r@.args =~= update_args());
    r
}

/// The packages that are not installed, in order.
pub open spec fn not_installed(ps: Seq<Seq<char>>, installed: Seq<bool>) -> Seq<Seq<char>>
    decreases ps.len(),
{
    if ps.len() == 0 || installed.len() != ps.len() {
        Seq::empty()
    } else {
        let prev = not_installed(ps.drop_last(), installed.drop_last());
        if installed.last() {
            prev
        } else {
            prev.push(ps.last())
        }
    }
}

/// The packages that are installed, in order.
pub open spec fn only_installed(ps: Seq<Seq<char>>, installed: Seq<bool>) -> Seq<Seq<char>>
    decreases ps.len(),
{
    if ps.len() == 0 || installed.len() != ps.len() {
        Seq::empty()
    } else {
        let prev = only_installed(ps.drop_last(), installed.drop_last());
        if installed.last() {
            prev.push(ps.last())
        } else {
            prev
        }
    }
}

pub open spec fn plus_suffixed(ps: Seq<Seq<char>>) -> Seq<Seq<char>> {
    ps.map_values(|p: Seq<char>| p + "+"@)
}

pub open spec fn install_args(missing: Seq<Seq<char>>) -> Seq<Seq<char>> {
    seq!["DEBIAN_FRONTEND=noninteractive"@, "apt-get"@, "install"@, "-y"@, "-qq"@, "--"@] + plus_suffixed(missing)
}

pub open spec fn purge_args(installed: Seq<Seq<char>>) -> Seq<Seq<char>> {
    seq!["DEBIAN_FRONTEND=noninteractive"@, "apt-get"@, "purge"@, "-y"@, "-qq"@, "--"@] + installed
}

/// The packages of `ps` whose state is `want`, in order.
fn select(packages: &Vec<String>, installed: &Vec<bool>, want: bool) -> (r: Vec<String>)
    requires
        installed@.len() == packages@.len(),
    ensures
        string_views(r@) == if want {
            only_installed(string_views(packages@), installed@)
        } else {
            not_installed(string_views(packages@), installed@)
        },
{
    let mut r: Vec<String> = Vec::new();
    let mut i: usize = 0;
    proof {
        assert(string_views(packages@).take(0) =~= Seq::<Seq<char>>::empty());
        assert(string_views(r@) =~= Seq::<Seq<char>>::empty());
    }
    while i < packages.len()
        invariant
            i <= packages@.len(),
            installed@.len() == packages@.len(),
            string_views(r@) == if want {
                only_installed(string_views(packages@).take(i as int), installed@.take(i as int))
            } else {
                not_installed(string_views(packages@).take(i as int), installed@.take(i as int))
            },
        decreases packages@.len() - i,
    {
        let ghost before = string_views(r@);
        proof {
            assert(string_views(packages@).take(i + 1).drop_last() =~= string_views(packages@).take(i as int));
            assert(installed@.take(i + 1).drop_last() =~= installed@.take(i as int));
        }
        if installed[i] == want {
            r.push(packages[i].clone());
            assert(string_views(r@) =~= before.push(packages@[i as int]@));
        }
        i += 1;
    }
    assert(string_views(packages@).take(i as int) =~= string_views(packages@));
    assert(installed@.take(i as int) =~= installed@);
    r
}

fn install(label: &str, missing: &Vec<String>) -> (r: Command)
    ensures
        r@ == sudo(label@, install_args(string_views(missing@))),
{
    let mut args = words(&["DEBIAN_FRONTEND=noninteractive", "apt-get", "install", "-y", "-qq", "--"]);
    let ghost head = string_views(args@);
    assert(head =~= seq!["DEBIAN_FRONTEND=noninteractive"@, "apt-get"@, "install"@, "-y"@, "-qq"@, "--"@]);
    let mut i: usize = 0;
    assert(string_views(args@) =~= head + plus_suffixed(string_views(missing@).take(0)));
    while i < missing.len()
        invariant
            i <= missing@.len(),
            string_views(args@) == head + plus_suffixed(string_views(missing@).take(i as int)),
        decreases missing@.len() - i,
    {
        let ghost before = string_views(args@);
        args.push(concat(missing[i].as_str(), "+"));
        i += 1;
        assert(string_views(args@) =~= before.push(missing@[i - 1]@ + "+"@));
        assert(string_views(args@) =~= head + plus_suffixed(string_views(missing@).take(i as int)));
    }
    assert(string_views(missing@).take(i as int) =~= string_views(missing@));
    checked(label, "sudo", args)
}

/// The install command for the packages not installed (`installed[i]` is
/// the state of `packages[i]`), or `None` where there is none.
pub fn packages(names: &Vec<String>, installed: &Vec<bool>) -> (r: Option<Command>)
    requires
        installed@.len() == names@.len(),
    ensures
        match r {
            None => not_installed(string_views(names@), installed@).len() == 0,
            Some(c) => not_installed(string_views(names@), installed@).len() > 0 && c@ == sudo(
                "APT package installation"@,
                install_args(not_installed(string_views(names@), installed@)),
            ),
        },
{
    let missing = select(names, installed, false);
    if missing.len() == 0 {
        return None;
    }
    Some(install("APT package installation", &missing))
}

pub const EMPTY_UPDATE_INSTALL_ERROR: &'static str = "APT update-and-install package sequence must not be empty";

/// The commands that refresh the package lists and then install the
/// packages not installed; none where all are installed.
pub fn update_and_install(packages: &Vec<String>, installed: &Vec<bool>) -> (r: Result<Vec<Command>, String>)
    requires
        installed@.len() == packages@.len(),
    ensures
        match r {
            Err(e) => packages@.len() == 0 && e@ == EMPTY_UPDATE_INSTALL_ERROR@,
            Ok(cs) => packages@.len() > 0 && if not_installed(string_views(packages@), installed@).len() == 0 {
                cs@.len() == 0
            } else {
                command_views(cs@) == seq![
                    sudo("APT update before install"@, update_args()),
                    sudo("APT package install"@, install_args(not_installed(string_views(packages@), installed@))),
                ]
            },
        },
{
    if packages.len() == 0 {
        return Err(EMPTY_UPDATE_INSTALL_ERROR.to_owned());
    }
    let missing = select(packages, installed, false);
    if missing.len() == 0 {
        return Ok(Vec::new());
    }
    let refresh = checked("APT update before install", "sudo", words(&["apt-get", "update", "-qq"]));
    assert(refresh@.args =~= update_args());
    let add = install("APT package install", &missing);
    let cs = vec![refresh, add];
    assert(command_views(cs@) =~= seq![refresh@, add@]);
    Ok(cs)
}

/// The purge command for the installed packages, or `None` where none is.
pub fn purge(packages: &Vec<String>, installed: &Vec<bool>) -> (r: Option<Command>)
    requires
        installed@.len() == packages@.len(),
    ensures
        match r {
            None => only_installed(string_views(packages@), installed@).len() == 0,
            Some(c) => only_installed(string_views(packages@), installed@).len() > 0 && c@ == sudo(
                "APT package purge"@,
                purge_args(only_installed(string_views(packages@), installed@)),
            ),
        },
{
    let present = select(packages, installed, true);
    if present.len() == 0 {
        return None;
    }
    let mut args = words(&["DEBIAN_FRONTEND=noninteractive", "apt-get", "purge", "-y", "-qq", "--"]);
    let ghost head = string_views(args@);
    assert(head =~= seq!["DEBIAN_FRONTEND=noninteractive"@, "apt-get"@, "purge"@, "-y"@, "-qq"@, "--"@]);
    let mut i: usize = 0;
    assert(string_views(args@) =~= head + string_views(present@).take(0));
    while i < present.len()
        invariant
            i <= present@.len(),
            string_views(args@) == head + string_views(present@).take(i as int),
        decreases present@.len() - i,
    {
        let ghost before = string_views(args@);
        args.push(present[i].clone());
        i += 1;
        assert(string_views(args@) =~= before.push(present@[i - 1]@));
        assert(string_views(args@) =~= head + string_views(present@).take(i as int));
    }
    assert(string_views(present@).take(i as int) =~= string_views(present@));
    Some(checked("APT package purge", "sudo", args))
}

/// The purge command for the installed ones of `ps`, if any.
pub open spec fn purge_plan(ps: Seq<Seq<char>>, installed: Seq<bool>) -> Option<CommandView> {
    if only_installed(ps, installed).len() == 0 {
        None
    } else {
        Some(sudo("APT package purge"@, purge_args(only_installed(ps, installed))))
    }
}

/// The install command for the missing ones of `ps`, if any.
pub open spec fn install_plan(ps: Seq<Seq<char>>, installed: Seq<bool>) -> Option<CommandView> {
    if not_installed(ps, installed).len() == 0 {
        None
    } else {
        Some(sudo("APT package installation"@, install_args(not_installed(ps, installed))))
    }
}

/// Where a purge followed by an install stands.
#[derive(Clone, Copy, Debug, PartialEq, Eq, Structural)]
pub enum PurgeThenInstallStage {
    /// Nothing has been done.
    Start,
    /// The installed states of the packages to purge have been asked for.
    PurgeQueried,
    /// The purge runs.
    Purging,
    /// The installed states of the packages to install have been asked for.
    InstallQueried,
    /// The install runs.
    Installing,
    /// The outcome has been handed out.
    Finished,
}

/// What came back from the last action.
pub enum AptOutcome {
    /// Nothing was asked (at the start).
    Nothing,
    /// The installed state of each package asked about, in order, or the
    /// first error of the queries.
    States(Result<Vec<bool>, String>),
    /// The outcome of the command that ran.
    Ran(Result<(), String>),
}

pub enum AptOutcomeView {
    Nothing,
    States(Result<Seq<bool>, Seq<char>>),
    Ran(Result<(), Seq<char>>),
}

impl View for AptOutcome {
    type V = AptOutcomeView;

    open spec fn view(&self) -> AptOutcomeView {
        match self {
            AptOutcome::Nothing => AptOutcomeView::Nothing,
            AptOutcome::States(Ok(v)) => AptOutcomeView::States(Ok(v@)),
            AptOutcome::States(Err(e)) => AptOutcomeView::States(Err(e@)),
            AptOutcome::Ran(Ok(())) => AptOutcomeView::Ran(Ok(())),
            AptOutcome::Ran(Err(e)) => AptOutcomeView::Ran(Err(e@)),
        }
    }
}

/// What a purge followed by an install does next.
pub enum AptAction {
    /// Ask whether each of these packages is installed (`dpkg-query`, one
    /// package after the other, stopping at the first error).
    Query(Vec<String>),
    /// Run this command.
    Run(Command),
    /// Stop with this outcome.
    Finish(Result<(), String>),
}

pub enum AptActionView {
    Query(Seq<Seq<char>>),
    Run(CommandView),
    Finish(Result<(), Seq<char>>),
}

impl View for AptAction {
    type V = AptActionView;

    open spec fn view(&self) -> AptActionView {
        match self {
            AptAction::Query(ps) => AptActionView::Query(string_views(ps@)),
            AptAction::Run(c) => AptActionView::Run(c@),
            AptAction::Finish(Ok(())) => AptActionView::Finish(Ok(())),
            AptAction::Finish(Err(e)) => AptActionView::Finish(Err(e@)),
        }
    }
}

/// The install half from its start: nothing to do without packages, else
/// the query of their states.
pub open spec fn install_start(ps: Seq<Seq<char>>) -> (PurgeThenInstallStage, AptActionView) {
    if ps.len() == 0 {
        (PurgeThenInstallStage::Finished, AptActionView::Finish(Ok(())))
    } else {
        (PurgeThenInstallStage::InstallQueried, AptActionView::Query(ps))
    }
}

/// The steps that a purge followed by an install may be handed.
pub open spec fn purge_install_step_allowed(
    stage: PurgeThenInstallStage,
    purge_ps: Seq<Seq<char>>,
    install_ps: Seq<Seq<char>>,
    outcome: AptOutcomeView,
) -> bool {
    match stage {
        PurgeThenInstallStage::Start => true,
        PurgeThenInstallStage::PurgeQueried => match outcome {
            AptOutcomeView::States(Ok(st)) => st.len() == purge_ps.len(),
            AptOutcomeView::States(Err(_)) => true,
            _ => false,
        },
        PurgeThenInstallStage::InstallQueried => match outcome {
            AptOutcomeView::States(Ok(st)) => st.len() == install_ps.len(),
            AptOutcomeView::States(Err(_)) => true,
            _ => false,
        },
        PurgeThenInstallStage::Purging | PurgeThenInstallStage::Installing => outcome is Ran,
        PurgeThenInstallStage::Finished => false,
    }
}

/// One step of `purge` then `packages`: the purge's error stops the work,
/// and the install is looked at only after the purge succeeded.
pub open spec fn purge_install_step(
    stage: PurgeThenInstallStage,
    purge_ps: Seq<Seq<char>>,
    install_ps: Seq<Seq<char>>,
    outcome: AptOutcomeView,
) -> (PurgeThenInstallStage, AptActionView) {
    match stage {
        PurgeThenInstallStage::Start => if purge_ps.len() == 0 {
            install_start(install_ps)
        } else {
            (PurgeThenInstallStage::PurgeQueried, AptActionView::Query(purge_ps))
        },
        PurgeThenInstallStage::PurgeQueried => match outcome {
            AptOutcomeView::States(Ok(st)) => match purge_plan(purge_ps, st) {
                None => install_start(install_ps),
                Some(c) => (PurgeThenInstallStage::Purging, AptActionView::Run(c)),
            },
            AptOutcomeView::States(Err(e)) => (PurgeThenInstallStage::Finished, AptActionView::Finish(Err(e))),
            _ => (PurgeThenInstallStage::Finished, AptActionView::Finish(Ok(()))),
        },
        PurgeThenInstallStage::Purging => match outcome {
            AptOutcomeView::Ran(Err(e)) => (PurgeThenInstallStage::Finished, AptActionView::Finish(Err(e))),
            _ => install_start(install_ps),
        },
        PurgeThenInstallStage::InstallQueried => match outcome {
            AptOutcomeView::States(Ok(st)) => match install_plan(install_ps, st) {
                None => (PurgeThenInstallStage::Finished, AptActionView::Finish(Ok(()))),
                Some(c) => (PurgeThenInstallStage::Installing, AptActionView::Run(c)),
            },
            AptOutcomeView::States(Err(e)) => (PurgeThenInstallStage::Finished, AptActionView::Finish(Err(e))),
            _ => (PurgeThenInstallStage::Finished, AptActionView::Finish(Ok(()))),
        },
        PurgeThenInstallStage::Installing => match outcome {
            AptOutcomeView::Ran(r) => (PurgeThenInstallStage::Finished, AptActionView::Finish(r)),
            _ => (PurgeThenInstallStage::Finished, AptActionView::Finish(Ok(()))),
        },
        PurgeThenInstallStage::Finished => (PurgeThenInstallStage::Finished, AptActionView::Finish(Ok(()))),
    }
}

fn install_start_exec(install_packages: &Vec<String>) -> (r: (PurgeThenInstallStage, AptAction))
    ensures
        (r.0, r.1@) == install_start(string_views(install_packages@)),
{
    if install_packages.len() == 0 {
        (PurgeThenInstallStage::Finished, AptAction::Finish(Ok(())))
    } else {
        (PurgeThenInstallStage::InstallQueried, AptAction::Query(install_packages.clone()))
    }
}

/// One step of purging the installed ones of `purge_packages` and then
/// installing the missing ones of `install_packages`: from the stage and what
/// the last action gave back, the next stage and action.
pub fn purge_then_install(
    stage: PurgeThenInstallStage,
    purge_packages: &Vec<String>,
    install_packages: &Vec<String>,
    outcome: AptOutcome,
) -> (r: (PurgeThenInstallStage, AptAction))
    requires
        purge_install_step_allowed(stage, string_views(purge_packages@), string_views(install_packages@), outcome@),
    ensures
        (r.0, r.1@) == purge_install_step(stage, string_views(purge_packages@), string_views(install_packages@), outcome@),
{
    match stage {
        PurgeThenInstallStage::Start => {
            if purge_packages.len() == 0 {
                install_start_exec(install_packages)
            } else {
                (PurgeThenInstallStage::PurgeQueried, AptAction::Query(purge_packages.clone()))
            }
        },
        PurgeThenInstallStage::PurgeQueried => match outcome {
            AptOutcome::States(Ok(states)) => match purge(purge_packages, &states) {
                None => install_start_exec(install_packages),
                Some(c) => (PurgeThenInstallStage::Purging, AptAction::Run(c)),
            },
            AptOutcome::States(Err(e)) => (PurgeThenInstallStage::Finished, AptAction::Finish(Err(e))),
            _ => (PurgeThenInstallStage::Finished, AptAction::Finish(Ok(()))),
        },
        PurgeThenInstallStage::Purging => match outcome {
            AptOutcome::Ran(Err(e)) => (PurgeThenInstallStage::Finished, AptAction::Finish(Err(e))),
            _ => install_start_exec(install_packages),
        },
        PurgeThenInstallStage::InstallQueried => match outcome {
            AptOutcome::States(Ok(states)) => match packages(install_packages, &states) {
                None => (PurgeThenInstallStage::Finished, AptAction::Finish(Ok(()))),
                Some(c) => (PurgeThenInstallStage::Installing, AptAction::Run(c)),
            },
            AptOutcome::States(Err(e)) => (PurgeThenInstallStage::Finished, AptAction::Finish(Err(e))),
            _ => (PurgeThenInstallStage::Finished, AptAction::Finish(Ok(()))),
        },
        PurgeThenInstallStage::Installing => match outcome {
            AptOutcome::Ran(r) => (PurgeThenInstallStage::Finished, AptAction::Finish(r)),
            _ => (PurgeThenInstallStage::Finished, AptAction::Finish(Ok(()))),
        },
        PurgeThenInstallStage::Finished => (PurgeThenInstallStage::Finished, AptAction::Finish(Ok(()))),
    }
}

/// What the machine is told at each stage, where the query of the packages
/// to purge gives `purge_states`, the purge gives `purged`, and likewise for
/// the install.
pub open spec fn purge_install_answer(
    stage: PurgeThenInstallStage,
    purge_states: Result<Seq<bool>, Seq<char>>,
    purged: Result<(), Seq<char>>,
    install_states: Result<Seq<bool>, Seq<char>>,
    installed: Result<(), Seq<char>>,
) -> AptOutcomeView {
    match stage {
        PurgeThenInstallStage::PurgeQueried => AptOutcomeView::States(purge_states),
        PurgeThenInstallStage::Purging => AptOutcomeView::Ran(purged),
        PurgeThenInstallStage::InstallQueried => AptOutcomeView::States(install_states),
        PurgeThenInstallStage::Installing => AptOutcomeView::Ran(installed),
        _ => AptOutcomeView::Nothing,
    }
}

/// The actions of at most `steps` steps from `stage`, each fed the answer
/// that `purge_install_answer` gives; the run ends with `Finish`.
pub open spec fn purge_install_run(
    stage: PurgeThenInstallStage,
    purge_ps: Seq<Seq<char>>,
    install_ps: Seq<Seq<char>>,
    purge_states: Result<Seq<bool>, Seq<char>>,
    purged: Result<(), Seq<char>>,
    install_states: Result<Seq<bool>, Seq<char>>,
    installed: Result<(), Seq<char>>,
    steps: nat,
) -> Seq<AptActionView>
    decreases steps,
{
    if steps == 0 || stage == PurgeThenInstallStage::Finished {
        Seq::empty()
    } else {
        let answer = purge_install_answer(stage, purge_states, purged, install_states, installed);
        let (next, action) = purge_install_step(stage, purge_ps, install_ps, answer);
        seq![action] + purge_install_run(
            next,
            purge_ps,
            install_ps,
            purge_states,
            purged,
            install_states,
            installed,
            (steps - 1) as nat,
        )
    }
}

/// The commands that a list of actions runs, in order.
pub open spec fn commands_run(actions: Seq<AptActionView>) -> Seq<CommandView>
    decreases actions.len(),
{
    if actions.len() == 0 {
        Seq::empty()
    } else {
        let rest = commands_run(actions.drop_last());
        match actions.last() {
            AptActionView::Run(c) => rest.push(c),
            _ => rest,
        }
    }
}

pub open spec fn plan_commands(plan: Option<CommandView>) -> Seq<CommandView> {
    match plan {
        Some(c) => seq![c],
        None => Seq::empty(),
    }
}

/// The commands of `purge` on its own: the purge of the installed packages,
/// where the query succeeded and found one.
pub open spec fn purge_commands(ps: Seq<Seq<char>>, states: Result<Seq<bool>, Seq<char>>) -> Seq<CommandView> {
    match states {
        Ok(st) => if ps.len() == 0 { Seq::empty() } else { plan_commands(purge_plan(ps, st)) },
        Err(_) => Seq::empty(),
    }
}

/// The outcome of `purge` on its own: its query's error, else the purge's
/// outcome where one ran.
pub open spec fn purge_outcome(
    ps: Seq<Seq<char>>,
    states: Result<Seq<bool>, Seq<char>>,
    ran: Result<(), Seq<char>>,
) -> Result<(), Seq<char>> {
    if ps.len() == 0 {
        Ok(())
    } else {
        match states {
            Err(e) => Err(e),
            Ok(st) => if purge_plan(ps, st) is None { Ok(()) } else { ran },
        }
    }
}

/// The commands of `packages` on its own.
pub open spec fn install_commands(ps: Seq<Seq<char>>, states: Result<Seq<bool>, Seq<char>>) -> Seq<CommandView> {
    match states {
        Ok(st) => if ps.len() == 0 { Seq::empty() } else { plan_commands(install_plan(ps, st)) },
        Err(_) => Seq::empty(),
    }
}

/// The outcome of `packages` on its own.
pub open spec fn install_outcome(
    ps: Seq<Seq<char>>,
    states: Result<Seq<bool>, Seq<char>>,
    ran: Result<(), Seq<char>>,
) -> Result<(), Seq<char>> {
    if ps.len() == 0 {
        Ok(())
    } else {
        match states {
            Err(e) => Err(e),
            Ok(st) => if install_plan(ps, st) is None { Ok(()) } else { ran },
        }
    }
}

/// A purge followed by an install runs the commands of the purge, and those
/// of the install only where the purge succeeded; it ends with the first
/// error of the two, or success.
pub proof fn lemma_purge_then_install_sequence(
    purge_ps: Seq<Seq<char>>,
    install_ps: Seq<Seq<char>>,
    purge_states: Result<Seq<bool>, Seq<char>>,
    purged: Result<(), Seq<char>>,
    install_states: Result<Seq<bool>, Seq<char>>,
    installed: Result<(), Seq<char>>,
)
    requires
        purge_states matches Ok(st) ==> st.len() == purge_ps.len(),
        install_states matches Ok(st) ==> st.len() == install_ps.len(),
    ensures
        ({
            let run = purge_install_run(
                PurgeThenInstallStage::Start,
                purge_ps,
                install_ps,
                purge_states,
                purged,
                install_states,
                installed,
                5,
            );
            let first = purge_outcome(purge_ps, purge_states, purged);
            &&& commands_run(run) == purge_commands(purge_ps, purge_states) + if first is Ok {
                install_commands(install_ps, install_states)
            } else {
                Seq::empty()
            }
            &&& run.len() > 0
            &&& run.last() == AptActionView::Finish(
                match first {
                    Err(e) => Err(e),
                    Ok(()) => install_outcome(install_ps, install_states, installed),
                },
            )
        }),
{
    reveal_with_fuel(purge_install_run, 6);
    reveal_with_fuel(commands_run, 6);
    let run = purge_install_run(
        PurgeThenInstallStage::Start,
        purge_ps,
        install_ps,
        purge_states,
        purged,
        install_states,
        installed,
        5,
    );
    assert(commands_run(run) =~= purge_commands(purge_ps, purge_states) + if purge_outcome(purge_ps, purge_states, purged) is Ok {
        install_commands(install_ps, install_states)
    } else {
        Seq::empty()
    });
}

pub open spec fn upgrade_commands(command: AptUpgradeCommand) -> Seq<CommandView> {
    match command {
        AptUpgradeCommand::Upgrade => seq![
            sudo(
                "APT upgrade"@,
                seq!["DEBIAN_FRONTEND=noninteractive"@, "apt-get"@, "upgrade"@, "-y"@, "-qq"@, "--"@],
            ),
        ],
        AptUpgradeCommand::FullUpgrade => seq![
            sudo(
                "APT full-upgrade"@,
                seq!["DEBIAN_FRONTEND=noninteractive"@, "apt-get"@, "full-upgrade"@, "-y"@, "-qq"@, "--"@],
            ),
            sudo(
                "APT purge autoremove"@,
                seq!["DEBIAN_FRONTEND=noninteractive"@, "apt-get"@, "autoremove"@, "--purge"@, "-y"@, "-qq"@, "--"@],
            ),
        ],
    }
}

/// The commands of a package upgrade.
pub fn upgrade(command: AptUpgradeCommand) -> (r: Vec<Command>)
    ensures
        command_views(r@) == upgrade_commands(command),
{
    match command {
        AptUpgradeCommand::Upgrade => {
            let c = checked(
                "APT upgrade",
                "sudo",
                words(&["DEBIAN_FRONTEND=noninteractive", "apt-get", "upgrade", "-y", "-qq", "--"]),
            );
            assert(c@.args =~= seq!["DEBIAN_FRONTEND=noninteractive"@, "apt-get"@, "upgrade"@, "-y"@, "-qq"@, "--"@]);
            let r = vec![c];
            assert(command_views(r@) =~= seq![c@]);
            r
        },
        AptUpgradeCommand::FullUpgrade => {
            let a = checked(
                "APT full-upgrade",
                "sudo",
                words(&["DEBIAN_FRONTEND=noninteractive", "apt-get", "full-upgrade", "-y", "-qq", "--"]),
            );
            assert(a@.args =~= seq!["DEBIAN_FRONTEND=noninteractive"@, "apt-get"@, "full-upgrade"@, "-y"@, "-qq"@, "--"@]);
            let b = checked(
                "APT purge autoremove",
                "sudo",
                words(&["DEBIAN_FRONTEND=noninteractive", "apt-get", "autoremove", "--purge", "-y", "-qq", "--"]),
            );
            assert(b@.args =~= seq!["DEBIAN_FRONTEND=noninteractive"@, "apt-get"@, "autoremove"@, "--purge"@, "-y"@, "-qq"@, "--"@]);
            let r = vec![a, b];
            assert(command_views(r@) =~= seq![a@, b@]);
            r
        },
    }
}

/// The `dpkg-query` states of a package that is present but not installed.
pub open spec fn absent_state(s: Seq<char>) -> bool {
    s == "not-installed\n"@ || s == "config-files\n"@ || s == "half-installed\n"@ || s == "unpacked\n"@
        || s == "half-configured\n"@ || s == "triggers-awaited\n"@ || s == "triggers-pending\n"@
}

/// Whether a package is installed, from `dpkg-query -W -f='${db:Status-Status}\n'`:
/// exit code 1 means unknown to dpkg; another failure is reported with its
/// standard error (as text, trimmed).
pub open spec fn package_state_result(package: Seq<char>, success: bool, code: Option<i32>, stdout: Seq<u8>, stderr: Seq<char>) -> Result<bool, Seq<char>> {
    if !success {
        if code == Some(1i32) {
            Ok(false)
        } else {
            Err("APT package inspection failed for "@ + debug_text(package) + ": "@ + trim(stderr))
        }
    } else if vstd::utf8::valid_utf8(stdout) && vstd::utf8::decode_utf8(stdout) == "installed\n"@ {
        Ok(true)
    } else if vstd::utf8::valid_utf8(stdout) && absent_state(vstd::utf8::decode_utf8(stdout)) {
        Ok(false)
    } else {
        Err("APT package inspection returned malformed state for "@ + debug_text(package))
    }
}

pub fn package_state(package: &str, success: bool, code: Option<i32>, stdout: &[u8], stderr: &str) -> (r: Result<bool, String>)
    ensures
        match r {
            Ok(b) => package_state_result(package@, success, code, stdout@, stderr@) == Ok::<bool, Seq<char>>(b),
            Err(e) => package_state_result(package@, success, code, stdout@, stderr@) == Err::<bool, Seq<char>>(e@),
        },
{
    if !success {
        if code == Some(1i32) {
            return Ok(false);
        }
        let detail = string_of(&trim_chars(&chars_of(stderr)));
        let mut m = concat3("APT package inspection failed for ", debug_str(package).as_str(), ": ");
        m.append(detail.as_str());
        return Err(m);
    }
    let malformed = concat("APT package inspection returned malformed state for ", debug_str(package).as_str());
    let text = match utf8_text(stdout) {
        None => {
            return Err(malformed);
        },
        Some(t) => chars_of(t.as_str()),
    };
    if eq_str(&text, "installed\n") {
        return Ok(true);
    }
    if eq_str(&text, "not-installed\n") || eq_str(&text, "config-files\n") || eq_str(&text, "half-installed\n")
        || eq_str(&text, "unpacked\n") || eq_str(&text, "half-configured\n") || eq_str(&text, "triggers-awaited\n")
        || eq_str(&text, "triggers-pending\n") {
        return Ok(false);
    }
    Err(malformed)
}

/// The periodic configuration that turns unattended upgrades on or off.
pub fn auto_upgrades_contents(enabled: bool) -> (r: &'static str)
    ensures
        r@ == if enabled {
            "APT::Periodic::Update-Package-Lists \"1\";\nAPT::Periodic::Unattended-Upgrade \"1\";\n"@
        } else {
            "APT::Periodic::Update-Package-Lists \"0\";\nAPT::Periodic::Unattended-Upgrade \"0\";\n"@
        },
{
    if enabled {
        "APT::Periodic::Update-Package-Lists \"1\";\nAPT::Periodic::Unattended-Upgrade \"1\";\n"
    } else {
        "APT::Periodic::Update-Package-Lists \"0\";\nAPT::Periodic::Unattended-Upgrade \"0\";\n"
    }
}

/// `dpkg-query` reports a package installed exactly where it succeeds and
/// prints `installed`; each state of a package that dpkg knows but has not
/// installed, and exit code 1 (a package unknown to dpkg), mean not
/// installed.
pub proof fn lemma_package_state_installed_only(package: Seq<char>, success: bool, code: Option<i32>, stdout: Seq<u8>, stderr: Seq<char>)
    ensures
        (package_state_result(package, success, code, stdout, stderr) == Ok::<bool, Seq<char>>(true)) <==> (success
            && vstd::utf8::valid_utf8(stdout) && vstd::utf8::decode_utf8(stdout) == "installed\n"@),
        success && vstd::utf8::valid_utf8(stdout) && ({
            let s = vstd::utf8::decode_utf8(stdout);
            ||| s == "not-installed\n"@
            ||| s == "config-files\n"@
            ||| s == "half-installed\n"@
            ||| s == "unpacked\n"@
            ||| s == "half-configured\n"@
            ||| s == "triggers-awaited\n"@
            ||| s == "triggers-pending\n"@
        }) ==> package_state_result(package, success, code, stdout, stderr) == Ok::<bool, Seq<char>>(false),
        !success && code == Some(1i32) ==> package_state_result(package, success, code, stdout, stderr) == Ok::<bool, Seq<char>>(
            false,
        ),
        !success && code != Some(1i32) ==> package_state_result(package, success, code, stdout, stderr) is Err,
{
    reveal_strlit("installed\n");
    reveal_strlit("not-installed\n");
    reveal_strlit("config-files\n");
    reveal_strlit("half-installed\n");
    reveal_strlit("unpacked\n");
    reveal_strlit("half-configured\n");
    reveal_strlit("triggers-awaited\n");
    reveal_strlit("triggers-pending\n");
    let i = "installed\n"@;
    assert(i.len() == 10);
    assert("not-installed\n"@ != i && "config-files\n"@ != i && "half-installed\n"@ != i && "unpacked\n"@ != i
        && "half-configured\n"@ != i && "triggers-awaited\n"@ != i && "triggers-pending\n"@ != i);
}

} // verus!
