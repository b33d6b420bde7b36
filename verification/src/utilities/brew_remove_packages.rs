//! Removing packages: the brew commands to run and how their outcomes are reported.
use vstd::prelude::*;
use crate::models::{BrewPackage, BrewPackageResult};
use crate::tui::progress::CommandOutcome;
use crate::utilities::brew_common::{brew_package_spec, package_spec};
use crate::utilities::brew_install_packages::views;

verus! {

/// Arguments for removing `package`: `remove -f <spec>`.
pub fn remove_args(package: &BrewPackage) -> (r: Vec<String>)
    ensures
        views(r@) == seq!["remove"@, "-f"@, package_spec(*package)],
{
    let mut args: Vec<String> = Vec::new();
    args.push(String::from_str("remove"));
    args.push(String::from_str("-f"));
    args.push(brew_package_spec(package));
    assert(views(args@) =~= seq!["remove"@, "-f"@, package_spec(*package)]);
    args
}

/// Arguments for brew's clean-up of dependencies no longer needed: `autoremove`.
pub fn autoremove_args() -> (r: Vec<String>)
    ensures
        views(r@) == seq!["autoremove"@],
{
    let mut args: Vec<String> = Vec::new();
    args.push(String::from_str("autoremove"));
    assert(views(args@) =~= seq!["autoremove"@]);
    args
}

/// The status reported for a removal that ended with `outcome`.
pub open spec fn remove_status(outcome: CommandOutcome) -> Seq<char> {
    match outcome {
        CommandOutcome::Exited { success } => if success {
            "completed"@
        } else {
            "failed"@
        },
        CommandOutcome::Error(e) => "failed: "@ + e@,
    }
}

/// The result of removing `package`, and whether brew's `autoremove` runs next (only after a
/// successful removal): `completed`, `failed`, or `failed: <why>` when brew could not be run.
pub fn remove_result(package: &BrewPackage, outcome: &CommandOutcome) -> (r: (BrewPackageResult, bool))
    ensures
        r.0.name == package.name,
        r.0.status@ == remove_status(*outcome),
        r.1 == (*outcome matches CommandOutcome::Exited { success } && success),
{
    match outcome {
        CommandOutcome::Exited { success } => if *success {
            (BrewPackageResult { name: package.name.clone(), status: String::from_str("completed") }, true)
        } else {
            (BrewPackageResult { name: package.name.clone(), status: String::from_str("failed") }, false)
        },
        CommandOutcome::Error(e) => (
            BrewPackageResult {
                name: package.name.clone(),
                status: String::from_str("failed: ").concat(e.as_str()),
            },
            false,
        ),
    }
}

/// Results of removing the packages one after the other; `outcomes[i]` is how the removal of
/// package `i` ended.
pub fn remove_packages_headless(packages: &Vec<BrewPackage>, outcomes: &Vec<CommandOutcome>) -> (r: Vec<BrewPackageResult>)
    requires
        outcomes.len() == packages.len(),
    ensures
        r.len() == packages.len(),
        forall|i: int|
            0 <= i < packages.len() ==> (#[trigger] r@[i]).name == packages@[i].name && r@[i].status@
                == remove_status(outcomes@[i]),
{
    let mut out: Vec<BrewPackageResult> = Vec::new();
    let mut i: usize = 0;
    while i < packages.len()
        invariant
            i <= packages.len(),
            outcomes.len() == packages.len(),
            out.len() == i,
            forall|k: int|
                0 <= k < i ==> (#[trigger] out@[k]).name == packages@[k].name && out@[k].status@
                    == remove_status(outcomes@[k]),
        decreases packages.len() - i,
    {
        let (res, _) = remove_result(&packages[i], &outcomes[i]);
        out.push(res);
        i = i + 1;
    }
    out
}

} // verus!
