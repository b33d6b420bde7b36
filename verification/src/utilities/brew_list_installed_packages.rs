//! The installed packages, as brew lists them.
use vstd::prelude::*;
use crate::models::BrewPackage;
use crate::utilities::brew_common::{nonblank_pieces, pieces};

verus! {

/// A package known by name only, marked as a cask or not.
pub open spec fn listed_package(name: Seq<char>, package: BrewPackage, cask: bool) -> bool {
    &&& package.name@ == name
    &&& package.category is None
    &&& package.url is None
    &&& package.version is None
    &&& if cask { package.cask == Some(true) } else { package.cask is None }
}

/// Appends one package per name, all marked `cask` or not.
fn push_listed(out: &mut Vec<BrewPackage>, names: Vec<String>, cask: bool)
    ensures
        final(out).len() == old(out).len() + names.len(),
        forall|i: int| 0 <= i < old(out).len() ==> final(out)@[i] == old(out)@[i],
        forall|j: int|
            0 <= j < names.len() ==> listed_package(
                names@[j]@,
                #[trigger] final(out)@[old(out).len() + j],
                cask,
            ),
{
    let ghost start = out.len();
    let mut j: usize = 0;
    while j < names.len()
        invariant
            j <= names.len(),
            start == old(out).len(),
            out.len() == start + j,
            forall|i: int| 0 <= i < start ==> out@[i] == old(out)@[i],
            forall|k: int| 0 <= k < j ==> listed_package(names@[k]@, #[trigger] out@[start + k], cask),
        decreases names.len() - j,
    {
        let flag = if cask { Some(true) } else { None };
        out.push(
            BrewPackage { name: names[j].clone(), category: None, url: None, cask: flag, version: None },
        );
        proof {
            assert(out@[start + j as int].name@ == names@[j as int]@);
        }
        j = j + 1;
    }
}

/// The installed packages from brew's one-per-line listings: first each formula named in
/// `formula_listing`, then each cask named in `cask_listing` (marked as a cask), lines trimmed
/// and blank lines skipped, in order.
pub fn list_installed_packages(formula_listing: &str, cask_listing: &str) -> (r: Vec<BrewPackage>)
    ensures
        r.len() == pieces(formula_listing@, '\n').len() + pieces(cask_listing@, '\n').len(),
        forall|i: int|
            0 <= i < pieces(formula_listing@, '\n').len() ==> listed_package(
                pieces(formula_listing@, '\n')[i],
                #[trigger] r@[i],
                false,
            ),
        forall|j: int|
            0 <= j < pieces(cask_listing@, '\n').len() ==> listed_package(
                pieces(cask_listing@, '\n')[j],
                #[trigger] r@[pieces(formula_listing@, '\n').len() + j],
                true,
            ),
{
    let formulae = nonblank_pieces(formula_listing, '\n');
    let casks = nonblank_pieces(cask_listing, '\n');
    proof {
        assert(formulae@.map_values(|s: String| s@).len() == formulae.len());
        assert(casks@.map_values(|s: String| s@).len() == casks.len());
        assert forall|i: int| 0 <= i < formulae.len() implies formulae@[i]@ == pieces(
            formula_listing@,
            '\n',
        )[i] by {
            assert(formulae@.map_values(|s: String| s@)[i] == formulae@[i]@);
        }
        assert forall|i: int| 0 <= i < casks.len() implies casks@[i]@ == pieces(cask_listing@, '\n')[i] by {
            assert(casks@.map_values(|s: String| s@)[i] == casks@[i]@);
        }
    }
    let mut out: Vec<BrewPackage> = Vec::new();
    push_listed(&mut out, formulae, false);
    let ghost mid = out@;
    push_listed(&mut out, casks, true);
    proof {
        assert forall|i: int| 0 <= i < pieces(formula_listing@, '\n').len() implies listed_package(
            pieces(formula_listing@, '\n')[i],
            #[trigger] out@[i],
            false,
        ) by {
            assert(mid[0 + i] == mid[i]);
        }
    }
    out
}

} // verus!
