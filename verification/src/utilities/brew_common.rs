//! Naming a package for brew, the banner lines, and merging recipes.
use vstd::prelude::*;
use crate::models::BrewPackage;
use crate::text::{
    chars_of, contains_chars, contains_text, pad_right, pad_to_width, string_from_chars, sub_chars,
    trim, trim_bounds, trim_str, utf8_len, utf8_len_capped,
};
use crate::utilities::brew_fetch_packages::{split_chars, split_on};
use crate::utilities::brew_fetch_packages::FetchError;
use crate::utilities::name_order::names_distinct;

verus! {

/// The argument brew receives for a package: `name@version` when a version is set and not
/// blank (the version trimmed), else the bare name.
pub open spec fn package_spec(p: BrewPackage) -> Seq<char> {
    if p.version is Some && trim(p.version->0@).len() > 0 {
        p.name@ + seq!['@'] + trim(p.version->0@)
    } else {
        p.name@
    }
}

/// The name under which brew installs and lists `package`.
pub fn brew_package_spec(package: &BrewPackage) -> (r: String)
    ensures
        r@ == package_spec(*package),
{
    match &package.version {
        Some(v) => {
            let t = trim_str(v.as_str());
            if t.as_str().is_empty() {
                package.name.clone()
            } else {
                proof {
                    reveal_strlit("@");
                }
                package.name.clone().concat("@").concat(t.as_str())
            }
        },
        None => package.name.clone(),
    }
}

// ---------------------------------------------------------------- merging recipes

/// Some package in `s` is named `name`.
pub open spec fn has_name(s: Seq<BrewPackage>, name: Seq<char>) -> bool {
    exists|i: int| 0 <= i < s.len() && (#[trigger] s[i]).name@ == name
}

/// Where in `s` a package is named `name` (meaningful when `has_name(s, name)`).
pub open spec fn name_index(s: Seq<BrewPackage>, name: Seq<char>) -> int {
    choose|i: int| 0 <= i < s.len() && (#[trigger] s[i]).name@ == name
}

/// `p` added to the merged list: it replaces the package of the same name, or goes last.
pub open spec fn upsert(acc: Seq<BrewPackage>, p: BrewPackage) -> Seq<BrewPackage> {
    if has_name(acc, p.name@) {
        acc.update(name_index(acc, p.name@), p)
    } else {
        acc.push(p)
    }
}

/// The packages of `list` added one by one to `acc`; later packages override earlier ones
/// of the same name.
pub open spec fn merge_into(acc: Seq<BrewPackage>, list: Seq<BrewPackage>) -> Seq<BrewPackage>
    decreases list.len(),
{
    if list.len() == 0 {
        acc
    } else {
        upsert(merge_into(acc, list.drop_last()), list.last())
    }
}

/// Recipes merged by package name.
pub struct RecipeMerge {
    packages: Vec<BrewPackage>,
}

impl RecipeMerge {
    /// The packages merged so far.
    pub closed spec fn merged(&self) -> Seq<BrewPackage> {
        self.packages@
    }

    /// No two merged packages share a name.
    pub closed spec fn wf(&self) -> bool {
        names_distinct(self.packages@)
    }

    /// Starts merging the recipes at `urls`; there must be at least one.
    pub fn start(urls: &Vec<String>) -> (r: Result<RecipeMerge, FetchError>)
        ensures
            urls.len() == 0 ==> (r matches Err(FetchError::InvalidUrl(m)) && m@ == "No URLs provided"@),
            urls.len() > 0 ==> (r matches Ok(m) && m.wf() && m.merged() == Seq::<BrewPackage>::empty()),
    {
        if urls.len() == 0 {
            return Err(FetchError::InvalidUrl(String::from_str("No URLs provided")));
        }
        Ok(RecipeMerge { packages: Vec::new() })
    }

    fn upsert_one(&mut self, p: BrewPackage)
        requires
            old(self).wf(),
        ensures
            final(self).wf(),
            final(self).merged() == upsert(old(self).merged(), p),
    {
        let mut i: usize = 0;
        while i < self.packages.len()
            invariant
                self.packages@ == old(self).packages@,
                names_distinct(self.packages@),
                i <= self.packages.len(),
                forall|k: int| 0 <= k < i ==> (#[trigger] self.packages@[k]).name@ != p.name@,
            decreases self.packages.len() - i,
        {
            if self.packages[i].name == p.name {
                proof {
                    let s = self.packages@;
                    let w = name_index(s, p.name@);
                    assert(has_name(s, p.name@));
                    if w != i {
                        assert(s[w].name@ == s[i as int].name@);
                        if w < i {
                            assert(s[w].name@ != s[i as int].name@);
                        }
                    }
                    assert(w == i);
                }
                self.packages.set(i, p);
                proof {
                    let s = self.packages@;
                    assert forall|a: int, b: int| 0 <= a < b < s.len() implies s[a].name@ != s[b].name@ by {
                        if a != i && b != i {
                            assert(s[a] == old(self).packages@[a]);
                            assert(s[b] == old(self).packages@[b]);
                        } else if a == i {
                            assert(s[b] == old(self).packages@[b]);
                            assert(old(self).packages@[i as int].name@ == p.name@);
                        } else {
                            assert(s[a] == old(self).packages@[a]);
                            assert(old(self).packages@[i as int].name@ == p.name@);
                        }
                    }
                }
                return;
            }
            i = i + 1;
        }
        self.packages.push(p);
    }

    /// Takes the outcome of fetching the recipe at `url`: its packages are merged in order,
    /// each replacing an earlier package of the same name; a failed fetch stops the merge with
    /// `FetchFailed` naming the URL.
    pub fn absorb(&mut self, url: &String, fetched: Result<Vec<BrewPackage>, FetchError>) -> (r: Result<(), FetchError>)
        requires
            old(self).wf(),
        ensures
            final(self).wf(),
            match fetched {
                Ok(list) => r is Ok && final(self).merged() == merge_into(old(self).merged(), list@),
                Err(e) => r matches Err(FetchError::FetchFailed { url: u, source }) && u == *url
                    && *source == e && final(self).merged() == old(self).merged(),
            },
    {
        match fetched {
            Ok(list) => {
                let mut i: usize = 0;
                while i < list.len()
                    invariant
                        i <= list.len(),
                        self.wf(),
                        self.merged() == merge_into(old(self).merged(), list@.take(i as int)),
                    decreases list.len() - i,
                {
                    proof {
                        assert(list@.take(i + 1).drop_last() == list@.take(i as int));
                        assert(list@.take(i + 1).last() == list@[i as int]);
                    }
                    self.upsert_one(list[i].duplicate());
                    i = i + 1;
                }
                proof {
                    assert(list@.take(list.len() as int) == list@);
                }
                Ok(())
            },
            Err(e) => Err(FetchError::FetchFailed { url: url.clone(), source: Box::new(e) }),
        }
    }

    /// The merged packages.
    pub fn finish(self) -> (r: Vec<BrewPackage>)
        requires
            self.wf(),
        ensures
            r@ == self.merged(),
            names_distinct(r@),
    {
        self.packages
    }
}

/// The recipes merged into one list: every package name that occurs appears once, carrying
/// the package that came last under that name.
pub fn merge_packages(recipes: &Vec<Vec<BrewPackage>>) -> (r: Vec<BrewPackage>)
    ensures
        r@ == merge_into(Seq::<BrewPackage>::empty(), flatten_recipes(recipes@)),
        names_distinct(r@),
{
    let mut acc = RecipeMerge { packages: Vec::new() };
    let mut j: usize = 0;
    while j < recipes.len()
        invariant
            j <= recipes.len(),
            acc.wf(),
            acc.merged() == merge_into(Seq::<BrewPackage>::empty(), flatten_recipes(recipes@.take(j as int))),
        decreases recipes.len() - j,
    {
        let list = &recipes[j];
        let mut i: usize = 0;
        while i < list.len()
            invariant
                i <= list.len(),
                acc.wf(),
                acc.merged() == merge_into(
                    Seq::<BrewPackage>::empty(),
                    flatten_recipes(recipes@.take(j as int)) + list@.take(i as int),
                ),
            decreases list.len() - i,
        {
            proof {
                let f = flatten_recipes(recipes@.take(j as int));
                assert((f + list@.take(i + 1)).drop_last() == f + list@.take(i as int));
                assert((f + list@.take(i + 1)).last() == list@[i as int]);
            }
            acc.upsert_one(list[i].duplicate());
            i = i + 1;
        }
        proof {
            assert(list@.take(list.len() as int) == list@);
            assert(recipes@.take(j + 1).drop_last() == recipes@.take(j as int));
            assert(recipes@.take(j + 1).last() == *list);
        }
        j = j + 1;
    }
    proof {
        assert(recipes@.take(recipes.len() as int) == recipes@);
    }
    acc.finish()
}

/// All packages of the recipes, one recipe after the other.
pub open spec fn flatten_recipes(recipes: Seq<Vec<BrewPackage>>) -> Seq<BrewPackage>
    decreases recipes.len(),
{
    if recipes.len() == 0 {
        Seq::<BrewPackage>::empty()
    } else {
        flatten_recipes(recipes.drop_last()) + recipes.last()@
    }
}

proof fn lemma_upsert(acc: Seq<BrewPackage>, p: BrewPackage)
    requires
        names_distinct(acc),
    ensures
        names_distinct(upsert(acc, p)),
        upsert(acc, p).contains(p),
        forall|n: Seq<char>| has_name(upsert(acc, p), n) <==> (has_name(acc, n) || n == p.name@),
        forall|i: int|
            0 <= i < acc.len() && acc[i].name@ != p.name@ ==> upsert(acc, p).contains(
                #[trigger] acc[i],
            ),
{
    let r = upsert(acc, p);
    if has_name(acc, p.name@) {
        let w = name_index(acc, p.name@);
        assert(r[w] == p);
        assert forall|a: int, b: int| 0 <= a < b < r.len() implies r[a].name@ != r[b].name@ by {
            if a == w {
                assert(acc[w].name@ == p.name@);
            }
            if b == w {
                assert(acc[w].name@ == p.name@);
            }
        }
        assert forall|n: Seq<char>| has_name(r, n) <==> (has_name(acc, n) || n == p.name@) by {
            if has_name(acc, n) {
                let k = choose|k: int| 0 <= k < acc.len() && (#[trigger] acc[k]).name@ == n;
                if k != w {
                    assert(r[k] == acc[k]);
                } else {
                    assert(r[w].name@ == n);
                }
            }
            if n == p.name@ {
                assert(r[w].name@ == n);
            }
            if has_name(r, n) {
                let k = choose|k: int| 0 <= k < r.len() && (#[trigger] r[k]).name@ == n;
                if k != w {
                    assert(acc[k] == r[k]);
                }
            }
        }
        assert forall|i: int| 0 <= i < acc.len() && acc[i].name@ != p.name@ implies r.contains(
            #[trigger] acc[i],
        ) by {
            assert(i != w);
            assert(r[i] == acc[i]);
        }
    } else {
        assert(r[acc.len() as int] == p);
        assert forall|n: Seq<char>| has_name(r, n) <==> (has_name(acc, n) || n == p.name@) by {
            if has_name(acc, n) {
                let k = choose|k: int| 0 <= k < acc.len() && (#[trigger] acc[k]).name@ == n;
                assert(r[k] == acc[k]);
            }
            if n == p.name@ {
                assert(r[acc.len() as int].name@ == n);
            }
            if has_name(r, n) {
                let k = choose|k: int| 0 <= k < r.len() && (#[trigger] r[k]).name@ == n;
                if k < acc.len() {
                    assert(acc[k] == r[k]);
                }
            }
        }
        assert forall|i: int| 0 <= i < acc.len() && acc[i].name@ != p.name@ implies r.contains(
            #[trigger] acc[i],
        ) by {
            assert(r[i] == acc[i]);
        }
    }
}

/// Law of merging recipes: the merged list has no repeated name; it has exactly the names
/// found in the earlier packages and in the new recipe; for every name the new recipe lists,
/// the merged list holds the last package of that name ("later entries override earlier
/// ones"); packages whose name the new recipe does not list stay as they were.
pub proof fn lemma_merge_last_wins(acc: Seq<BrewPackage>, list: Seq<BrewPackage>)
    requires
        names_distinct(acc),
    ensures
        names_distinct(merge_into(acc, list)),
        forall|n: Seq<char>| has_name(merge_into(acc, list), n) <==> (has_name(acc, n) || has_name(list, n)),
        forall|j: int|
            0 <= j < list.len() && (forall|k: int| j < k < list.len() ==> list[k].name@ != list[j].name@)
                ==> merge_into(acc, list).contains(#[trigger] list[j]),
        forall|i: int|
            0 <= i < acc.len() && !has_name(list, acc[i].name@) ==> merge_into(acc, list).contains(
                #[trigger] acc[i],
            ),
    decreases list.len(),
{
    if list.len() > 0 {
        let d = list.drop_last();
        let p = list.last();
        lemma_merge_last_wins(acc, d);
        let r0 = merge_into(acc, d);
        lemma_upsert(r0, p);
        let r = merge_into(acc, list);
        assert(r == upsert(r0, p));
        assert forall|n: Seq<char>| has_name(r, n) <==> (has_name(acc, n) || has_name(list, n)) by {
            if has_name(d, n) {
                let k = choose|k: int| 0 <= k < d.len() && (#[trigger] d[k]).name@ == n;
                assert(list[k] == d[k]);
            }
            if has_name(list, n) {
                let k = choose|k: int| 0 <= k < list.len() && (#[trigger] list[k]).name@ == n;
                if k < d.len() {
                    assert(d[k] == list[k]);
                }
            }
        }
        assert forall|j: int|
            0 <= j < list.len() && (forall|k: int| j < k < list.len() ==> list[k].name@ != list[j].name@)
            implies r.contains(#[trigger] list[j]) by {
            if j < d.len() {
                assert(d[j] == list[j]);
                assert forall|k: int| j < k < d.len() implies d[k].name@ != d[j].name@ by {
                    assert(d[k] == list[k]);
                }
                assert(r0.contains(d[j]));
                let w = choose|w: int| 0 <= w < r0.len() && r0[w] == d[j];
                assert(list[list.len() - 1].name@ != list[j].name@);
                assert(r0[w].name@ != p.name@);
                assert(r.contains(r0[w]));
            }
        }
        assert forall|i: int| 0 <= i < acc.len() && !has_name(list, acc[i].name@) implies r.contains(
            #[trigger] acc[i],
        ) by {
            if has_name(d, acc[i].name@) {
                let k = choose|k: int| 0 <= k < d.len() && (#[trigger] d[k]).name@ == acc[i].name@;
                assert(list[k] == d[k]);
            }
            assert(r0.contains(acc[i]));
            let w = choose|w: int| 0 <= w < r0.len() && r0[w] == acc[i];
            assert(list[list.len() - 1] == p);
            assert(r0[w].name@ != p.name@);
            assert(r.contains(r0[w]));
        }
    }
}

// ---------------------------------------------------------------- banner

/// Width the title is padded to: 49 minus the version's length in bytes (0 when longer).
pub open spec fn title_width(version: Seq<char>) -> int {
    if utf8_len(version) < 49 {
        49 - utf8_len(version)
    } else {
        0
    }
}

/// The top line of the banner.
pub open spec fn banner_top() -> Seq<char> {
    "╔═══════════════════════════════════════════════════════════════════╗"@
}

/// The bottom line of the banner.
pub open spec fn banner_bottom() -> Seq<char> {
    "╚═══════════════════════════════════════════════════════════════════╝"@
}

/// The middle line of the banner: program, version and the padded title inside the frame.
pub open spec fn banner_middle(title: Seq<char>, version: Seq<char>) -> Seq<char> {
    "║         BRIM v"@ + version + " - "@ + pad_right(title, title_width(version)) + "║"@
}

/// The three lines of the banner for `title`, showing the program's `version`.
pub fn header_lines(title: &str, version: &str) -> (r: (String, String, String))
    ensures
        r.0@ == banner_top(),
        r.1@ == banner_middle(title@, version@),
        r.2@ == banner_bottom(),
{
    let used = utf8_len_capped(version, 49);
    let width: usize = 49 - used;
    let top = String::from_str("╔═══════════════════════════════════════════════════════════════════╗");
    let middle = String::from_str("║         BRIM v").concat(version).concat(" - ").concat(
        pad_to_width(title, width).as_str(),
    ).concat("║");
    let bottom = String::from_str("╚═══════════════════════════════════════════════════════════════════╝");
    (top, middle, bottom)
}

// ---------------------------------------------------------------- command line

/// The trimmed, non-empty pieces of `text` between occurrences of `sep`, in order.
pub open spec fn pieces(text: Seq<char>, sep: char) -> Seq<Seq<char>> {
    split_on(text, sep).map_values(|p: Seq<char>| trim(p)).filter(|p: Seq<char>| p.len() > 0)
}

/// The trimmed, non-empty pieces of `text` between occurrences of `sep` (see `pieces`).
pub fn nonblank_pieces(text: &str, sep: char) -> (r: Vec<String>)
    ensures
        r@.map_values(|s: String| s@) == pieces(text@, sep),
{
    let v = chars_of(text);
    let parts = split_chars(&v, sep);
    let ghost trimmed = split_on(v@, sep).map_values(|p: Seq<char>| trim(p));
    let mut out: Vec<String> = Vec::new();
    let mut i: usize = 0;
    while i < parts.len()
        invariant
            i <= parts.len(),
            parts.len() == split_on(v@, sep).len(),
            forall|k: int| 0 <= k < parts.len() ==> (#[trigger] parts@[k])@ == split_on(v@, sep)[k],
            trimmed == split_on(v@, sep).map_values(|p: Seq<char>| trim(p)),
            out@.map_values(|s: String| s@) == trimmed.take(i as int).filter(|p: Seq<char>| p.len() > 0),
        decreases parts.len() - i,
    {
        let (a, b) = trim_bounds(&parts[i]);
        proof {
            assert(trimmed.take(i + 1) == trimmed.take(i as int).push(trimmed[i as int]));
            trimmed.take(i as int).lemma_filter_push(trimmed[i as int], |p: Seq<char>| p.len() > 0);
        }
        if a < b {
            let piece = sub_chars(&parts[i], a, b);
            let ghost before = out@;
            out.push(string_from_chars(piece.as_slice()));
            proof {
                assert(out@.map_values(|s: String| s@) == before.map_values(|s: String| s@).push(
                    trimmed[i as int],
                ));
            }
        }
        i = i + 1;
    }
    proof {
        assert(trimmed.take(parts.len() as int) == trimmed);
    }
    out
}

/// Recipe locations named by `--url` values: each value split at commas, pieces trimmed, empty
/// pieces dropped, in order.
pub open spec fn url_list(args: Seq<String>) -> Seq<Seq<char>>
    decreases args.len(),
{
    if args.len() == 0 {
        Seq::<Seq<char>>::empty()
    } else {
        url_list(args.drop_last()) + pieces(args.last()@, ',')
    }
}

/// Splits the `--url` values into recipe locations (see `url_list`).
pub fn split_url_args(args: &Vec<String>) -> (r: Vec<String>)
    ensures
        r@.map_values(|s: String| s@) == url_list(args@),
{
    let mut out: Vec<String> = Vec::new();
    let mut j: usize = 0;
    while j < args.len()
        invariant
            j <= args.len(),
            out@.map_values(|s: String| s@) == url_list(args@.take(j as int)),
        decreases args.len() - j,
    {
        let mut more = nonblank_pieces(args[j].as_str(), ',');
        let ghost before = out@;
        let ghost added = more@;
        out.append(&mut more);
        proof {
            assert(out@ == before + added);
            assert(out@.map_values(|s: String| s@) =~= before.map_values(|s: String| s@) + added.map_values(
                |s: String| s@,
            ));
            assert(args@.take(j + 1).drop_last() == args@.take(j as int));
            assert(args@.take(j + 1).last() == args@[j as int]);
        }
        j = j + 1;
    }
    proof {
        assert(args@.take(args.len() as int) == args@);
    }
    out
}

/// A package counts as installed on the selection screen when its name occurs in an installed
/// package's name.
pub open spec fn marked_installed(package: BrewPackage, installed: Seq<BrewPackage>) -> bool {
    exists|i: int| 0 <= i < installed.len() && contains_text((#[trigger] installed[i]).name@, package.name@)
}

/// Whether the selection screen marks `package` as installed.
pub fn is_marked_installed(package: &BrewPackage, installed: &Vec<BrewPackage>) -> (r: bool)
    ensures
        r == marked_installed(*package, installed@),
{
    let name = chars_of(package.name.as_str());
    let mut i: usize = 0;
    while i < installed.len()
        invariant
            i <= installed.len(),
            name@ == package.name@,
            forall|k: int| 0 <= k < i ==> !contains_text((#[trigger] installed@[k]).name@, package.name@),
        decreases installed.len() - i,
    {
        if contains_chars(&chars_of(installed[i].name.as_str()), &name) {
            return true;
        }
        i = i + 1;
    }
    false
}

/// The counts shown above the selection screen: how many recipe packages are marked
/// installed, and how many are casks (the cask flag is present).
pub fn recipe_summary(packages: &Vec<BrewPackage>, installed: &Vec<BrewPackage>) -> (r: (usize, usize))
    ensures
        r.0 == packages@.filter(|p: BrewPackage| marked_installed(p, installed@)).len(),
        r.1 == packages@.filter(|p: BrewPackage| p.cask is Some).len(),
{
    let ghost marked = |p: BrewPackage| marked_installed(p, installed@);
    let ghost cask = |p: BrewPackage| p.cask is Some;
    let mut n_installed: usize = 0;
    let mut n_casks: usize = 0;
    let mut i: usize = 0;
    while i < packages.len()
        invariant
            i <= packages.len(),
            marked == (|p: BrewPackage| marked_installed(p, installed@)),
            cask == (|p: BrewPackage| p.cask is Some),
            n_installed == packages@.take(i as int).filter(marked).len(),
            n_casks == packages@.take(i as int).filter(cask).len(),
            n_installed <= i,
            n_casks <= i,
        decreases packages.len() - i,
    {
        proof {
            assert(packages@.take(i + 1) == packages@.take(i as int).push(packages@[i as int]));
            packages@.take(i as int).lemma_filter_push(packages@[i as int], marked);
            packages@.take(i as int).lemma_filter_push(packages@[i as int], cask);
        }
        if is_marked_installed(&packages[i], installed) {
            n_installed = n_installed + 1;
        }
        if packages[i].cask.is_some() {
            n_casks = n_casks + 1;
        }
        i = i + 1;
    }
    proof {
        assert(packages@.take(packages.len() as int) == packages@);
    }
    (n_installed, n_casks)
}

/// The word a dry run uses for what would happen: `installed` for the `install` operation,
/// `removed` for any other.
pub fn dry_run_verb(operation: &str) -> (r: &'static str)
    ensures
        r@ == if operation@ == "install"@ { "installed"@ } else { "removed"@ },
{
    let op = String::from_str(operation);
    let install = String::from_str("install");
    if op == install {
        "installed"
    } else {
        "removed"
    }
}

/// Names of the packages a dry run lists as formulae (no cask flag) and as casks, in order.
pub fn dry_run_groups(packages: &Vec<BrewPackage>) -> (r: (Vec<String>, Vec<String>))
    ensures
        r.0@ == packages@.filter(|p: BrewPackage| p.cask is None).map_values(|p: BrewPackage| p.name),
        r.1@ == packages@.filter(|p: BrewPackage| p.cask is Some).map_values(|p: BrewPackage| p.name),
{
    let mut formulae: Vec<String> = Vec::new();
    let mut casks: Vec<String> = Vec::new();
    let mut i: usize = 0;
    while i < packages.len()
        invariant
            i <= packages.len(),
            formulae@ == packages@.take(i as int).filter(|p: BrewPackage| p.cask is None).map_values(
                |p: BrewPackage| p.name,
            ),
            casks@ == packages@.take(i as int).filter(|p: BrewPackage| p.cask is Some).map_values(
                |p: BrewPackage| p.name,
            ),
        decreases packages.len() - i,
    {
        proof {
            assert(packages@.take(i + 1) == packages@.take(i as int).push(packages@[i as int]));
            packages@.take(i as int).lemma_filter_push(packages@[i as int], |p: BrewPackage| p.cask is None);
            packages@.take(i as int).lemma_filter_push(packages@[i as int], |p: BrewPackage| p.cask is Some);
        }
        if packages[i].cask.is_some() {
            casks.push(packages[i].name.clone());
        } else {
            formulae.push(packages[i].name.clone());
        }
        i = i + 1;
    }
    proof {
        assert(packages@.take(packages.len() as int) == packages@);
    }
    (formulae, casks)
}

} // verus!
