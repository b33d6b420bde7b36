//! Comparing a recipe with the installed packages.
use vstd::prelude::*;
use crate::utilities::brew_common::{brew_package_spec, package_spec};
use crate::models::{BrewPackage, BrewSyncReport};

verus! {

broadcast use vstd::seq_lib::group_seq_properties;

/// Some installed package carries the name `name`.
pub open spec fn is_installed_as(installed: Seq<BrewPackage>, name: Seq<char>) -> bool {
    exists|i: int| 0 <= i < installed.len() && (#[trigger] installed[i]).name@ == name
}

/// Some recipe package is installed under the name `name`.
pub open spec fn is_wanted_as(recipe: Seq<BrewPackage>, name: Seq<char>) -> bool {
    exists|j: int| 0 <= j < recipe.len() && package_spec(#[trigger] recipe[j]) == name
}

/// Recipe packages that are not yet installed.
pub open spec fn missing_from(installed: Seq<BrewPackage>) -> spec_fn(BrewPackage) -> bool {
    |p: BrewPackage| !is_installed_as(installed, package_spec(p))
}

/// Recipe packages that are installed already.
pub open spec fn present_in(installed: Seq<BrewPackage>) -> spec_fn(BrewPackage) -> bool {
    |p: BrewPackage| is_installed_as(installed, package_spec(p))
}

/// Installed packages that no recipe package asks for.
pub open spec fn unwanted_by(recipe: Seq<BrewPackage>) -> spec_fn(BrewPackage) -> bool {
    |i: BrewPackage| !is_wanted_as(recipe, i.name@)
}

/// Whether some package of `installed` is named exactly `name`.
fn installed_under(installed: &Vec<BrewPackage>, name: &String) -> (r: bool)
    ensures
        r == is_installed_as(installed@, name@),
{
    let mut i: usize = 0;
    while i < installed.len()
        invariant
            i <= installed.len(),
            forall|k: int| 0 <= k < i ==> (#[trigger] installed@[k]).name@ != name@,
        decreases installed.len() - i,
    {
        if installed[i].name == *name {
            return true;
        }
        i = i + 1;
    }
    false
}

/// Whether some package of `recipe` is installed under the name `name`.
fn wanted_under(recipe: &Vec<BrewPackage>, name: &String) -> (r: bool)
    ensures
        r == is_wanted_as(recipe@, name@),
{
    let mut j: usize = 0;
    while j < recipe.len()
        invariant
            j <= recipe.len(),
            forall|k: int| 0 <= k < j ==> package_spec(#[trigger] recipe@[k]) != name@,
        decreases recipe.len() - j,
    {
        let spec = brew_package_spec(&recipe[j]);
        if spec == *name {
            return true;
        }
        j = j + 1;
    }
    false
}

/// Compares the recipe with the installed packages: which recipe packages to install,
/// which installed packages the recipe does not list, and which are in sync. A recipe
/// package counts as installed when an installed package's name equals its brew spec
/// (`name@version` when a version is pinned). Each list keeps the order of its source.
pub fn sync_analysis(recipe_packages: &Vec<BrewPackage>, installed_packages: &Vec<BrewPackage>) -> (r: BrewSyncReport)
    ensures
        r.to_install@ == recipe_packages@.filter(missing_from(installed_packages@)),
        r.to_remove@ == installed_packages@.filter(unwanted_by(recipe_packages@)),
        r.in_sync@ == recipe_packages@.filter(present_in(installed_packages@)),
{
    let ghost rec = recipe_packages@;
    let ghost ins = installed_packages@;
    let mut to_install: Vec<BrewPackage> = Vec::new();
    let mut in_sync: Vec<BrewPackage> = Vec::new();
    let mut i: usize = 0;
    while i < recipe_packages.len()
        invariant
            i <= recipe_packages.len(),
            rec == recipe_packages@,
            ins == installed_packages@,
            to_install@ == rec.take(i as int).filter(missing_from(ins)),
            in_sync@ == rec.take(i as int).filter(present_in(ins)),
        decreases recipe_packages.len() - i,
    {
        let p = &recipe_packages[i];
        let spec = brew_package_spec(p);
        let present = installed_under(installed_packages, &spec);
        proof {
            assert(rec.take(i + 1) == rec.take(i as int).push(rec[i as int]));
            rec.take(i as int).lemma_filter_push(rec[i as int], missing_from(ins));
            rec.take(i as int).lemma_filter_push(rec[i as int], present_in(ins));
        }
        if present {
            in_sync.push(p.duplicate());
        } else {
            to_install.push(p.duplicate());
        }
        i = i + 1;
    }
    proof {
        assert(rec.take(rec.len() as int) == rec);
    }
    let mut to_remove: Vec<BrewPackage> = Vec::new();
    let mut k: usize = 0;
    while k < installed_packages.len()
        invariant
            k <= installed_packages.len(),
            rec == recipe_packages@,
            ins == installed_packages@,
            to_remove@ == ins.take(k as int).filter(unwanted_by(rec)),
        decreases installed_packages.len() - k,
    {
        let q = &installed_packages[k];
        let wanted = wanted_under(recipe_packages, &q.name);
        proof {
            assert(ins.take(k + 1) == ins.take(k as int).push(ins[k as int]));
            ins.take(k as int).lemma_filter_push(ins[k as int], unwanted_by(rec));
        }
        if !wanted {
            to_remove.push(q.duplicate());
        }
        k = k + 1;
    }
    proof {
        assert(ins.take(ins.len() as int) == ins);
    }
    BrewSyncReport { to_install, to_remove, in_sync }
}

/// Packages whose name no package of `others` carries.
pub open spec fn name_absent_from(others: Seq<BrewPackage>) -> spec_fn(BrewPackage) -> bool {
    |p: BrewPackage| !is_installed_as(others, p.name@)
}

/// Packages whose name some package of `others` carries.
pub open spec fn name_found_in(others: Seq<BrewPackage>) -> spec_fn(BrewPackage) -> bool {
    |p: BrewPackage| is_installed_as(others, p.name@)
}

/// The sync summary of the command line, which matches packages by plain name: recipe
/// packages no installed package is named after are to install, installed packages no recipe
/// package is named after are extra, and recipe packages with an installed namesake are in
/// sync. Each list keeps the order of its source.
pub fn sync_by_name(installed: &Vec<BrewPackage>, recipe: &Vec<BrewPackage>) -> (r: BrewSyncReport)
    ensures
        r.to_install@ == recipe@.filter(name_absent_from(installed@)),
        r.to_remove@ == installed@.filter(name_absent_from(recipe@)),
        r.in_sync@ == recipe@.filter(name_found_in(installed@)),
{
    let ghost rec = recipe@;
    let ghost ins = installed@;
    let mut to_install: Vec<BrewPackage> = Vec::new();
    let mut in_sync: Vec<BrewPackage> = Vec::new();
    let mut i: usize = 0;
    while i < recipe.len()
        invariant
            i <= recipe.len(),
            rec == recipe@,
            ins == installed@,
            to_install@ == rec.take(i as int).filter(name_absent_from(ins)),
            in_sync@ == rec.take(i as int).filter(name_found_in(ins)),
        decreases recipe.len() - i,
    {
        let p = &recipe[i];
        let present = installed_under(installed, &p.name);
        proof {
            assert(rec.take(i + 1) == rec.take(i as int).push(rec[i as int]));
            rec.take(i as int).lemma_filter_push(rec[i as int], name_absent_from(ins));
            rec.take(i as int).lemma_filter_push(rec[i as int], name_found_in(ins));
        }
        if present {
            in_sync.push(p.duplicate());
        } else {
            to_install.push(p.duplicate());
        }
        i = i + 1;
    }
    proof {
        assert(rec.take(rec.len() as int) == rec);
    }
    let mut to_remove: Vec<BrewPackage> = Vec::new();
    let mut k: usize = 0;
    while k < installed.len()
        invariant
            k <= installed.len(),
            rec == recipe@,
            ins == installed@,
            to_remove@ == ins.take(k as int).filter(name_absent_from(rec)),
        decreases installed.len() - k,
    {
        let q = &installed[k];
        let listed = installed_under(recipe, &q.name);
        proof {
            assert(ins.take(k + 1) == ins.take(k as int).push(ins[k as int]));
            ins.take(k as int).lemma_filter_push(ins[k as int], name_absent_from(rec));
        }
        if !listed {
            to_remove.push(q.duplicate());
        }
        k = k + 1;
    }
    proof {
        assert(ins.take(ins.len() as int) == ins);
    }
    BrewSyncReport { to_install, to_remove, in_sync }
}

/// Filtering by a predicate and by its negation splits a sequence: the lengths of
/// the two parts add up to the whole.
pub proof fn lemma_filter_split_len<A>(s: Seq<A>, p: spec_fn(A) -> bool, q: spec_fn(A) -> bool)
    requires
        forall|x: A| #[trigger] q(x) == !p(x),
    ensures
        s.filter(p).len() + s.filter(q).len() == s.len(),
    decreases s.len(),
{
    if s.len() > 0 {
        lemma_filter_split_len(s.drop_last(), p, q);
        assert(s == s.drop_last().push(s.last()));
        s.drop_last().lemma_filter_push(s.last(), p);
        s.drop_last().lemma_filter_push(s.last(), q);
    }
}

/// Law of the sync report: every recipe package is either to be installed or in sync,
/// never both, so the two lists together are as long as the recipe; a package is in
/// sync exactly when its brew spec is installed; what is to be removed is exactly the
/// installed packages that no recipe package asks for.
pub proof fn lemma_sync_report_partitions(recipe: Seq<BrewPackage>, installed: Seq<BrewPackage>)
    ensures
        recipe.filter(missing_from(installed)).len() + recipe.filter(present_in(installed)).len()
            == recipe.len(),
        forall|p: BrewPackage|
            recipe.contains(p) ==> (#[trigger] recipe.filter(present_in(installed)).contains(p)
                <==> is_installed_as(installed, package_spec(p))),
        forall|p: BrewPackage|
            recipe.contains(p) ==> (#[trigger] recipe.filter(missing_from(installed)).contains(p)
                <==> !is_installed_as(installed, package_spec(p))),
        forall|q: BrewPackage|
            installed.contains(q) ==> (#[trigger] installed.filter(unwanted_by(recipe)).contains(q)
                <==> !is_wanted_as(recipe, q.name@)),
{
    broadcast use vstd::seq_lib::group_filter_ensures;

    lemma_filter_split_len(recipe, present_in(installed), missing_from(installed));
    assert forall|p: BrewPackage| recipe.contains(p) implies (#[trigger] recipe.filter(
        present_in(installed),
    ).contains(p) <==> is_installed_as(installed, package_spec(p))) by {
        let i = choose|i: int| 0 <= i < recipe.len() && recipe[i] == p;
        if is_installed_as(installed, package_spec(p)) {
            recipe.lemma_filter_contains(present_in(installed), i);
        }
        if recipe.filter(present_in(installed)).contains(p) {
            let j = choose|j: int|
                0 <= j < recipe.filter(present_in(installed)).len() && recipe.filter(
                    present_in(installed),
                )[j] == p;
            recipe.lemma_filter_pred(present_in(installed), j);
        }
    }
    assert forall|p: BrewPackage| recipe.contains(p) implies (#[trigger] recipe.filter(
        missing_from(installed),
    ).contains(p) <==> !is_installed_as(installed, package_spec(p))) by {
        let i = choose|i: int| 0 <= i < recipe.len() && recipe[i] == p;
        if !is_installed_as(installed, package_spec(p)) {
            recipe.lemma_filter_contains(missing_from(installed), i);
        }
        if recipe.filter(missing_from(installed)).contains(p) {
            let j = choose|j: int|
                0 <= j < recipe.filter(missing_from(installed)).len() && recipe.filter(
                    missing_from(installed),
                )[j] == p;
            recipe.lemma_filter_pred(missing_from(installed), j);
        }
    }
    assert forall|q: BrewPackage| installed.contains(q) implies (#[trigger] installed.filter(
        unwanted_by(recipe),
    ).contains(q) <==> !is_wanted_as(recipe, q.name@)) by {
        let i = choose|i: int| 0 <= i < installed.len() && installed[i] == q;
        if !is_wanted_as(recipe, q.name@) {
            installed.lemma_filter_contains(unwanted_by(recipe), i);
        }
        if installed.filter(unwanted_by(recipe)).contains(q) {
            let j = choose|j: int|
                0 <= j < installed.filter(unwanted_by(recipe)).len() && installed.filter(
                    unwanted_by(recipe),
                )[j] == q;
            installed.lemma_filter_pred(unwanted_by(recipe), j);
        }
    }
}

/// Law of the name-based sync summary: every recipe package is either to install or in
/// sync, never both, so the two lists together are as long as the recipe.
pub proof fn lemma_sync_by_name_partitions(recipe: Seq<BrewPackage>, installed: Seq<BrewPackage>)
    ensures
        recipe.filter(name_absent_from(installed)).len() + recipe.filter(name_found_in(installed)).len()
            == recipe.len(),
{
    lemma_filter_split_len(recipe, name_found_in(installed), name_absent_from(installed));
}

/// Law of the sync report, stated over brew specs and names alone: an installed package is
/// reported for removal exactly when no recipe package's brew spec equals its name; a recipe
/// package is in sync exactly when an installed package carries its brew spec as name, and
/// to install exactly when none does.
pub proof fn lemma_sync_report_by_spec(recipe: Seq<BrewPackage>, installed: Seq<BrewPackage>)
    ensures
        forall|q: BrewPackage|
            installed.contains(q) ==> (#[trigger] installed.filter(unwanted_by(recipe)).contains(q)
                <==> (forall|j: int| 0 <= j < recipe.len() ==> package_spec(recipe[j]) != q.name@)),
        forall|p: BrewPackage|
            recipe.contains(p) ==> (#[trigger] recipe.filter(present_in(installed)).contains(p)
                <==> (exists|i: int| 0 <= i < installed.len() && installed[i].name@ == package_spec(p))),
        forall|p: BrewPackage|
            recipe.contains(p) ==> (#[trigger] recipe.filter(missing_from(installed)).contains(p)
                <==> (forall|i: int| 0 <= i < installed.len() ==> installed[i].name@ != package_spec(p))),
{
    lemma_sync_report_partitions(recipe, installed);
    assert forall|q: BrewPackage| installed.contains(q) implies (#[trigger] installed.filter(
        unwanted_by(recipe),
    ).contains(q) <==> (forall|j: int| 0 <= j < recipe.len() ==> package_spec(recipe[j]) != q.name@)) by {
        if is_wanted_as(recipe, q.name@) {
            let j = choose|j: int| 0 <= j < recipe.len() && package_spec(#[trigger] recipe[j]) == q.name@;
            assert(package_spec(recipe[j]) == q.name@);
        }
        if !(forall|j: int| 0 <= j < recipe.len() ==> package_spec(recipe[j]) != q.name@) {
            let j = choose|j: int| !(0 <= j < recipe.len() ==> package_spec(recipe[j]) != q.name@);
            assert(package_spec(recipe[j]) == q.name@);
            assert(is_wanted_as(recipe, q.name@));
        }
    }
    assert forall|p: BrewPackage| recipe.contains(p) implies (#[trigger] recipe.filter(
        present_in(installed),
    ).contains(p) <==> (exists|i: int| 0 <= i < installed.len() && installed[i].name@ == package_spec(p))) by {
        if exists|i: int| 0 <= i < installed.len() && installed[i].name@ == package_spec(p) {
            let i = choose|i: int| 0 <= i < installed.len() && installed[i].name@ == package_spec(p);
            assert(is_installed_as(installed, package_spec(p)));
        }
    }
    assert forall|p: BrewPackage| recipe.contains(p) implies (#[trigger] recipe.filter(
        missing_from(installed),
    ).contains(p) <==> (forall|i: int| 0 <= i < installed.len() ==> installed[i].name@ != package_spec(p))) by {
        if !(forall|i: int| 0 <= i < installed.len() ==> installed[i].name@ != package_spec(p)) {
            let i = choose|i: int| !(0 <= i < installed.len() ==> installed[i].name@ != package_spec(p));
            assert(is_installed_as(installed, package_spec(p)));
        }
    }
}

/// Law of the name-based sync summary, stated over names alone: a recipe package is to
/// install exactly when no installed package has its name, and in sync exactly when one
/// does; an installed package is extra exactly when no recipe package has its name.
pub proof fn lemma_sync_by_name_membership(recipe: Seq<BrewPackage>, installed: Seq<BrewPackage>)
    ensures
        forall|p: BrewPackage|
            recipe.contains(p) ==> (#[trigger] recipe.filter(name_absent_from(installed)).contains(p)
                <==> (forall|i: int| 0 <= i < installed.len() ==> installed[i].name@ != p.name@)),
        forall|p: BrewPackage|
            recipe.contains(p) ==> (#[trigger] recipe.filter(name_found_in(installed)).contains(p)
                <==> (exists|i: int| 0 <= i < installed.len() && installed[i].name@ == p.name@)),
        forall|q: BrewPackage|
            installed.contains(q) ==> (#[trigger] installed.filter(name_absent_from(recipe)).contains(q)
                <==> (forall|j: int| 0 <= j < recipe.len() ==> recipe[j].name@ != q.name@)),
{
    broadcast use vstd::seq_lib::group_filter_ensures;

    assert forall|p: BrewPackage| recipe.contains(p) implies (#[trigger] recipe.filter(
        name_absent_from(installed),
    ).contains(p) <==> (forall|i: int| 0 <= i < installed.len() ==> installed[i].name@ != p.name@)) by {
        let k = choose|k: int| 0 <= k < recipe.len() && recipe[k] == p;
        if !is_installed_as(installed, p.name@) {
            recipe.lemma_filter_contains(name_absent_from(installed), k);
        }
        if recipe.filter(name_absent_from(installed)).contains(p) {
            let j = choose|j: int|
                0 <= j < recipe.filter(name_absent_from(installed)).len() && recipe.filter(
                    name_absent_from(installed),
                )[j] == p;
            recipe.lemma_filter_pred(name_absent_from(installed), j);
        }
        if !(forall|i: int| 0 <= i < installed.len() ==> installed[i].name@ != p.name@) {
            let i = choose|i: int| !(0 <= i < installed.len() ==> installed[i].name@ != p.name@);
            assert(is_installed_as(installed, p.name@));
        }
    }
    assert forall|p: BrewPackage| recipe.contains(p) implies (#[trigger] recipe.filter(
        name_found_in(installed),
    ).contains(p) <==> (exists|i: int| 0 <= i < installed.len() && installed[i].name@ == p.name@)) by {
        let k = choose|k: int| 0 <= k < recipe.len() && recipe[k] == p;
        if exists|i: int| 0 <= i < installed.len() && installed[i].name@ == p.name@ {
            let i = choose|i: int| 0 <= i < installed.len() && installed[i].name@ == p.name@;
            assert(is_installed_as(installed, p.name@));
            recipe.lemma_filter_contains(name_found_in(installed), k);
        }
        if recipe.filter(name_found_in(installed)).contains(p) {
            let j = choose|j: int|
                0 <= j < recipe.filter(name_found_in(installed)).len() && recipe.filter(
                    name_found_in(installed),
                )[j] == p;
            recipe.lemma_filter_pred(name_found_in(installed), j);
        }
    }
    assert forall|q: BrewPackage| installed.contains(q) implies (#[trigger] installed.filter(
        name_absent_from(recipe),
    ).contains(q) <==> (forall|j: int| 0 <= j < recipe.len() ==> recipe[j].name@ != q.name@)) by {
        let k = choose|k: int| 0 <= k < installed.len() && installed[k] == q;
        if !is_installed_as(recipe, q.name@) {
            installed.lemma_filter_contains(name_absent_from(recipe), k);
        }
        if installed.filter(name_absent_from(recipe)).contains(q) {
            let j = choose|j: int|
                0 <= j < installed.filter(name_absent_from(recipe)).len() && installed.filter(
                    name_absent_from(recipe),
                )[j] == q;
            installed.lemma_filter_pred(name_absent_from(recipe), j);
        }
        if !(forall|j: int| 0 <= j < recipe.len() ==> recipe[j].name@ != q.name@) {
            let j = choose|j: int| !(0 <= j < recipe.len() ==> recipe[j].name@ != q.name@);
            assert(is_installed_as(recipe, q.name@));
        }
    }
}

} // verus!
