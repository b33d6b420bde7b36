//! Installing packages: the brew commands to run and how their outcomes are reported.
use vstd::prelude::*;
use crate::models::{BrewPackage, BrewPackageResult};
use crate::tui::progress::{CommandOutcome, PackageProgress, ProgressState};
use crate::utilities::brew_common::{brew_package_spec, package_spec};

verus! {

/// The words of a brew command for `package`: `verb`, the package's spec, and `--cask` for
/// casks.
pub open spec fn verb_args(verb: Seq<char>, package: BrewPackage) -> Seq<Seq<char>> {
    if package.cask is Some {
        seq![verb, package_spec(package), "--cask"@]
    } else {
        seq![verb, package_spec(package)]
    }
}

/// The views of a list of strings.
pub open spec fn views(v: Seq<String>) -> Seq<Seq<char>> {
    v.map_values(|s: String| s@)
}

/// Arguments of `brew <verb> <spec> [--cask]`.
fn verb_command(verb: &str, package: &BrewPackage) -> (r: Vec<String>)
    ensures
        views(r@) == verb_args(verb@, *package),
{
    let mut args: Vec<String> = Vec::new();
    args.push(String::from_str(verb));
    args.push(brew_package_spec(package));
    if package.cask.is_some() {
        args.push(String::from_str("--cask"));
    }
    assert(views(args@) =~= verb_args(verb@, *package));
    args
}

/// Arguments for installing `package`: `install <spec>`, then `--cask` for casks.
pub fn install_args(package: &BrewPackage) -> (r: Vec<String>)
    ensures
        views(r@) == verb_args("install"@, *package),
{
    verb_command("install", package)
}

/// Arguments for downloading `package` ahead of installing it: `fetch <spec>`, then `--cask`
/// for casks.
pub fn fetch_args(package: &BrewPackage) -> (r: Vec<String>)
    ensures
        views(r@) == verb_args("fetch"@, *package),
{
    verb_command("fetch", package)
}

/// Arguments the progress screen uses to download `package`: `fetch`, `--cask` for casks,
/// then the spec.
pub fn progress_fetch_args(package: &BrewPackage) -> (r: Vec<String>)
    ensures
        views(r@) == if package.cask is Some {
            seq!["fetch"@, "--cask"@, package_spec(*package)]
        } else {
            seq!["fetch"@, package_spec(*package)]
        },
{
    let mut args: Vec<String> = Vec::new();
    args.push(String::from_str("fetch"));
    if package.cask.is_some() {
        args.push(String::from_str("--cask"));
    }
    args.push(brew_package_spec(package));
    assert(views(args@) =~= if package.cask is Some {
        seq!["fetch"@, "--cask"@, package_spec(*package)]
    } else {
        seq!["fetch"@, package_spec(*package)]
    });
    args
}

/// The status reported for an install that ended with `outcome`.
pub open spec fn install_status(outcome: CommandOutcome) -> Seq<char> {
    match outcome {
        CommandOutcome::Exited { success } => if success {
            "completed"@
        } else {
            "failed"@
        },
        CommandOutcome::Error(e) => "error: "@ + e@,
    }
}

/// The result of installing `package`: `completed` on a successful exit, `failed` on an
/// unsuccessful one, `error: <why>` when brew could not be run.
pub fn install_result(package: &BrewPackage, outcome: &CommandOutcome) -> (r: BrewPackageResult)
    ensures
        r.name == package.name,
        r.status@ == install_status(*outcome),
{
    let status = match outcome {
        CommandOutcome::Exited { success } => if *success {
            String::from_str("completed")
        } else {
            String::from_str("failed")
        },
        CommandOutcome::Error(e) => String::from_str("error: ").concat(e.as_str()),
    };
    BrewPackageResult { name: package.name.clone(), status }
}

/// Whether a package gets installed: always without parallel downloads; with them, only when
/// its download succeeded.
pub open spec fn installs(parallel: bool, fetched: bool) -> bool {
    !parallel || fetched
}

/// Whether a package gets installed (see `installs`).
pub fn should_install(parallel: bool, fetched: bool) -> (r: bool)
    ensures
        r == installs(parallel, fetched),
{
    !parallel || fetched
}

/// The result reported for the package at position `i`.
pub open spec fn headless_result_ok(
    r: BrewPackageResult,
    package: BrewPackage,
    parallel: bool,
    fetched: bool,
    outcome: Option<CommandOutcome>,
) -> bool {
    &&& r.name == package.name
    &&& if installs(parallel, fetched) {
        r.status@ == install_status(outcome->0)
    } else {
        r.status@ == "failed"@
    }
}

/// Results of a headless install, one per package in order. Without `parallel` every
/// package was installed one after the other; with it every package was first downloaded
/// (`fetched[i]` says whether that worked), then those downloaded were installed one after
/// the other, and the others are reported `failed`. `outcomes[i]` is how the install of
/// package `i` ended, for each package that was installed.
pub fn install_packages_headless(
    packages: &Vec<BrewPackage>,
    parallel: bool,
    fetched: &Vec<bool>,
    outcomes: &Vec<Option<CommandOutcome>>,
) -> (r: Vec<BrewPackageResult>)
    requires
        fetched.len() == packages.len(),
        outcomes.len() == packages.len(),
        forall|i: int|
            0 <= i < packages.len() && installs(parallel, #[trigger] fetched@[i]) ==> outcomes@[i] is Some,
    ensures
        r.len() == packages.len(),
        forall|i: int|
            0 <= i < packages.len() ==> headless_result_ok(
                #[trigger] r@[i],
                packages@[i],
                parallel,
                fetched@[i],
                outcomes@[i],
            ),
{
    let mut out: Vec<BrewPackageResult> = Vec::new();
    let mut i: usize = 0;
    while i < packages.len()
        invariant
            i <= packages.len(),
            fetched.len() == packages.len(),
            outcomes.len() == packages.len(),
            forall|k: int|
                0 <= k < packages.len() && installs(parallel, #[trigger] fetched@[k]) ==> outcomes@[k] is Some,
            out.len() == i,
            forall|k: int|
                0 <= k < i ==> headless_result_ok(
                    #[trigger] out@[k],
                    packages@[k],
                    parallel,
                    fetched@[k],
                    outcomes@[k],
                ),
        decreases packages.len() - i,
    {
        let p = &packages[i];
        let res = if should_install(parallel, fetched[i]) {
            match &outcomes[i] {
                Some(o) => install_result(p, o),
                None => {
                    assert(false);
                    BrewPackageResult { name: p.name.clone(), status: String::from_str("failed") }
                },
            }
        } else {
            BrewPackageResult { name: p.name.clone(), status: String::from_str("failed") }
        };
        out.push(res);
        i = i + 1;
    }
    out
}

/// Law of a headless install, stated per package: without parallel downloads every package
/// is installed and reported by how brew ended (`completed` on success, `failed` on an
/// unsuccessful exit, `error: ` and the reason when brew could not run); with them, a
/// package whose download succeeded is reported the same way, and one whose download failed
/// is reported `failed`.
pub proof fn lemma_headless_result_status(
    r: BrewPackageResult,
    package: BrewPackage,
    parallel: bool,
    fetched: bool,
    outcome: Option<CommandOutcome>,
)
    requires
        headless_result_ok(r, package, parallel, fetched, outcome),
    ensures
        r.name == package.name,
        (!parallel || fetched) ==> match outcome {
            Some(CommandOutcome::Exited { success }) => if success {
                r.status@ == "completed"@
            } else {
                r.status@ == "failed"@
            },
            Some(CommandOutcome::Error(e)) => r.status@ == "error: "@ + e@,
            None => true,
        },
        (parallel && !fetched) ==> r.status@ == "failed"@,
{
}

// ---------------------------------------------------------------- waiting for brew

/// What one look at a running brew command found: it exited (successfully or not), it is
/// still running, or it could not be asked (the text says why).
pub enum ChildPoll {
    Exited { success: bool },
    Running,
    Unknown(String),
}

/// How many looks, a tenth of a second apart, an install is given before it is stopped.
pub open spec fn install_poll_limit() -> u64 {
    1800
}

/// How many looks, a tenth of a second apart, a download is given before it is stopped.
pub open spec fn fetch_poll_limit() -> u64 {
    1200
}

/// What the install of one package does after a look at brew: end with an outcome (killing
/// brew first when `kill`), or wait another tenth of a second, having looked `polls` times.
pub enum InstallStep {
    Done { outcome: CommandOutcome, kill: bool },
    Wait { polls: u64 },
}

/// One step of waiting for `brew install`: a cancellation ends it with `Cancelled by user`
/// (the look is not used then), an exit ends it with that exit, a failed look ends it with
/// its reason, and a running install waits, unless it has been looked at `1800` times
/// already, which ends it with `Installation timed out after 3 minutes`. Brew is killed on
/// cancellation and on time-out.
pub fn install_step(cancelled: bool, poll: ChildPoll, polls: u64) -> (r: InstallStep)
    ensures
        cancelled ==> (r matches InstallStep::Done { outcome: CommandOutcome::Error(m), kill }
            && kill && m@ == "Cancelled by user"@),
        !cancelled ==> match poll {
            ChildPoll::Exited { success } => r matches InstallStep::Done {
                outcome: CommandOutcome::Exited { success: s },
                kill,
            } && s == success && !kill,
            ChildPoll::Unknown(e) => r matches InstallStep::Done { outcome: CommandOutcome::Error(m), kill }
                && m == e && !kill,
            ChildPoll::Running => if polls >= install_poll_limit() {
                r matches InstallStep::Done { outcome: CommandOutcome::Error(m), kill } && kill && m@
                    == "Installation timed out after 3 minutes"@
            } else {
                r == (InstallStep::Wait { polls: (polls + 1) as u64 })
            },
        },
{
    if cancelled {
        return InstallStep::Done {
            outcome: CommandOutcome::Error(String::from_str("Cancelled by user")),
            kill: true,
        };
    }
    match poll {
        ChildPoll::Exited { success } => InstallStep::Done {
            outcome: CommandOutcome::Exited { success },
            kill: false,
        },
        ChildPoll::Unknown(e) => InstallStep::Done { outcome: CommandOutcome::Error(e), kill: false },
        ChildPoll::Running => if polls >= 1800 {
            InstallStep::Done {
                outcome: CommandOutcome::Error(String::from_str("Installation timed out after 3 minutes")),
                kill: true,
            }
        } else {
            InstallStep::Wait { polls: polls + 1 }
        },
    }
}

/// What a download on the progress screen does after a look at brew: end with brew's exit
/// status, give up (killing brew when `kill`; `timed_out` when it ran out of time), or wait
/// another tenth of a second having looked `polls` times (`report`: show its progress now).
pub enum FetchStep {
    Done { success: bool },
    GiveUp { kill: bool, timed_out: bool },
    Wait { polls: u64, report: bool },
}

/// One step of waiting for `brew fetch`: a cancellation gives up and kills brew (the look is
/// not used then), an exit ends with its status, a failed look gives up, and a running
/// download waits, unless it has been looked at `1200` times already, which gives up on a
/// time-out and kills brew. Every tenth look the download's progress is shown.
pub fn fetch_step(cancelled: bool, poll: ChildPoll, polls: u64) -> (r: FetchStep)
    ensures
        cancelled ==> r == (FetchStep::GiveUp { kill: true, timed_out: false }),
        !cancelled ==> match poll {
            ChildPoll::Exited { success } => r == (FetchStep::Done { success }),
            ChildPoll::Unknown(_) => r == (FetchStep::GiveUp { kill: false, timed_out: false }),
            ChildPoll::Running => if polls >= fetch_poll_limit() {
                r == (FetchStep::GiveUp { kill: true, timed_out: true })
            } else {
                r == (FetchStep::Wait { polls: (polls + 1) as u64, report: (polls + 1) % 10 == 0 })
            },
        },
{
    if cancelled {
        return FetchStep::GiveUp { kill: true, timed_out: false };
    }
    match poll {
        ChildPoll::Exited { success } => FetchStep::Done { success },
        ChildPoll::Unknown(_) => FetchStep::GiveUp { kill: false, timed_out: false },
        ChildPoll::Running => if polls >= 1200 {
            FetchStep::GiveUp { kill: true, timed_out: true }
        } else {
            let n = polls + 1;
            FetchStep::Wait { polls: n, report: n % 10 == 0 }
        },
    }
}

/// After the downloads, the package at `index` is installed unless its download failed.
pub fn install_after_download(packages: &Vec<PackageProgress>, index: usize) -> (r: bool)
    ensures
        r == (index < packages.len() && packages@[index as int].state != ProgressState::Failed),
{
    if index < packages.len() {
        packages[index].state != ProgressState::Failed
    } else {
        false
    }
}

} // verus!
