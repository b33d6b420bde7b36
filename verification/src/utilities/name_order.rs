//! Ordering packages by name: the stable sort the recipe hash is taken over.
use vstd::prelude::*;
use crate::models::BrewPackage;

verus! {

broadcast use vstd::seq_lib::group_seq_properties;

/// `a` sorts before or together with `b`: lexicographic order on characters, which is the
/// byte order in which `String`s compare.
pub open spec fn name_le(a: Seq<char>, b: Seq<char>) -> bool
    decreases a.len(),
{
    if a.len() == 0 {
        true
    } else if b.len() == 0 {
        false
    } else if a[0] != b[0] {
        a[0] < b[0]
    } else {
        name_le(a.drop_first(), b.drop_first())
    }
}

/// `p` placed into `sorted` after every package whose name sorts before or with its own.
pub open spec fn insert_by_name(sorted: Seq<BrewPackage>, p: BrewPackage) -> Seq<BrewPackage>
    decreases sorted.len(),
{
    if sorted.len() == 0 {
        seq![p]
    } else if name_le(sorted.last().name@, p.name@) {
        sorted.push(p)
    } else {
        insert_by_name(sorted.drop_last(), p).push(sorted.last())
    }
}

/// The packages in stable order of their names (what `sort_by` on the names yields).
pub open spec fn sort_by_name(s: Seq<BrewPackage>) -> Seq<BrewPackage>
    decreases s.len(),
{
    if s.len() == 0 {
        s
    } else {
        insert_by_name(sort_by_name(s.drop_last()), s.last())
    }
}

proof fn lemma_name_le_skip(a: Seq<char>, b: Seq<char>, i: int)
    requires
        0 <= i <= a.len(),
        i <= b.len(),
        forall|k: int| 0 <= k < i ==> a[k] == b[k],
    ensures
        name_le(a, b) == name_le(a.skip(i), b.skip(i)),
    decreases i,
{
    if i > 0 {
        lemma_name_le_skip(a.drop_first(), b.drop_first(), i - 1);
        assert(a.drop_first().skip(i - 1) == a.skip(i));
        assert(b.drop_first().skip(i - 1) == b.skip(i));
    } else {
        assert(a.skip(0) == a);
        assert(b.skip(0) == b);
    }
}

proof fn lemma_insert_shift(before: Seq<BrewPackage>, p: BrewPackage, k: int)
    requires
        0 < k <= before.len(),
        !name_le(before[k - 1].name@, p.name@),
        insert_by_name(before, p) == insert_by_name(before.take(k), p) + before.skip(k),
    ensures
        insert_by_name(before, p) == insert_by_name(before.take(k - 1), p) + before.skip(k - 1),
{
    let t = before.take(k);
    assert(t.drop_last() == before.take(k - 1));
    assert(t.last() == before[k - 1]);
    assert(insert_by_name(t, p) == insert_by_name(before.take(k - 1), p).push(before[k - 1]));
    assert(before.skip(k - 1) == seq![before[k - 1]] + before.skip(k));
    assert(insert_by_name(before.take(k - 1), p).push(before[k - 1]) + before.skip(k)
        == insert_by_name(before.take(k - 1), p) + before.skip(k - 1));
}

proof fn lemma_insert_place(before: Seq<BrewPackage>, p: BrewPackage, k: int)
    requires
        0 <= k <= before.len(),
        k == 0 || name_le(before[k - 1].name@, p.name@),
        insert_by_name(before, p) == insert_by_name(before.take(k), p) + before.skip(k),
    ensures
        insert_by_name(before, p) == before.insert(k, p),
{
    let t = before.take(k);
    if k == 0 {
        assert(insert_by_name(t, p) == seq![p]);
    } else {
        assert(t.last() == before[k - 1]);
        assert(insert_by_name(t, p) == t.push(p));
    }
    assert(before.insert(k, p) == insert_by_name(t, p) + before.skip(k));
}

/// Whether `a` sorts before or together with `b`.
fn name_le_chars(a: &Vec<char>, b: &Vec<char>) -> (r: bool)
    ensures
        r == name_le(a@, b@),
{
    let mut i: usize = 0;
    while i < a.len() && i < b.len() && a[i] == b[i]
        invariant
            i <= a.len(),
            i <= b.len(),
            forall|k: int| 0 <= k < i ==> a@[k] == b@[k],
        decreases a.len() - i,
    {
        i = i + 1;
    }
    proof {
        lemma_name_le_skip(a@, b@, i as int);
    }
    if i == a.len() {
        true
    } else if i == b.len() {
        false
    } else {
        assert(a@.skip(i as int)[0] == a@[i as int]);
        assert(b@.skip(i as int)[0] == b@[i as int]);
        a[i] < b[i]
    }
}

/// The packages sorted by name; packages with equal names keep their order.
pub fn sort_packages_by_name(packages: &Vec<BrewPackage>) -> (r: Vec<BrewPackage>)
    ensures
        r@ == sort_by_name(packages@),
{
    let mut out: Vec<BrewPackage> = Vec::new();
    let mut i: usize = 0;
    while i < packages.len()
        invariant
            i <= packages.len(),
            out@ == sort_by_name(packages@.take(i as int)),
        decreases packages.len() - i,
    {
        let p = packages[i].duplicate();
        let pname = crate::text::chars_of(p.name.as_str());
        let ghost before = out@;
        let mut k: usize = out.len();
        while k > 0 && !name_le_chars(&crate::text::chars_of(out[k - 1].name.as_str()), &pname)
            invariant
                k <= out.len(),
                out@ == before,
                pname@ == p.name@,
                insert_by_name(before, p) == insert_by_name(before.take(k as int), p) + before.skip(
                    k as int,
                ),
            decreases k,
        {
            proof {
                lemma_insert_shift(before, p, k as int);
            }
            k = k - 1;
        }
        proof {
            lemma_insert_place(before, p, k as int);
            assert(packages@.take(i + 1).drop_last() == packages@.take(i as int));
            assert(packages@.take(i + 1).last() == p);
        }
        out.insert(k, p);
        i = i + 1;
    }
    proof {
        assert(packages@.take(packages.len() as int) == packages@);
    }
    out
}

// ---------------------------------------------------------------- properties

/// The packages are in order of their names.
pub open spec fn sorted_by_name(s: Seq<BrewPackage>) -> bool {
    forall|i: int, j: int| 0 <= i < j < s.len() ==> name_le(s[i].name@, s[j].name@)
}

/// No two packages share a name.
pub open spec fn names_distinct(s: Seq<BrewPackage>) -> bool {
    forall|i: int, j: int| 0 <= i < j < s.len() ==> s[i].name@ != s[j].name@
}

/// Every name comes no later than itself.
pub proof fn lemma_name_le_refl(a: Seq<char>)
    ensures
        name_le(a, a),
    decreases a.len(),
{
    if a.len() > 0 {
        lemma_name_le_refl(a.drop_first());
    }
}

/// Of two names, one comes no later than the other.
pub proof fn lemma_name_le_total(a: Seq<char>, b: Seq<char>)
    ensures
        name_le(a, b) || name_le(b, a),
    decreases a.len(),
{
    if a.len() > 0 && b.len() > 0 && a[0] == b[0] {
        lemma_name_le_total(a.drop_first(), b.drop_first());
    }
}

/// The name order is transitive.
pub proof fn lemma_name_le_trans(a: Seq<char>, b: Seq<char>, c: Seq<char>)
    requires
        name_le(a, b),
        name_le(b, c),
    ensures
        name_le(a, c),
    decreases a.len(),
{
    if a.len() > 0 && b.len() > 0 && c.len() > 0 && a[0] == b[0] && b[0] == c[0] {
        lemma_name_le_trans(a.drop_first(), b.drop_first(), c.drop_first());
    }
}

/// Two names each no later than the other are equal.
pub proof fn lemma_name_le_antisym(a: Seq<char>, b: Seq<char>)
    requires
        name_le(a, b),
        name_le(b, a),
    ensures
        a == b,
    decreases a.len(),
{
    if a.len() > 0 && b.len() > 0 {
        lemma_name_le_antisym(a.drop_first(), b.drop_first());
        assert(a == seq![a[0]] + a.drop_first());
        assert(b == seq![b[0]] + b.drop_first());
    }
}

/// `insert_by_name` puts `p` at some position and leaves the rest in order.
#[verifier::rlimit(30)]
pub proof fn lemma_insert_by_name_position(s: Seq<BrewPackage>, p: BrewPackage) -> (k: int)
    ensures
        0 <= k <= s.len(),
        insert_by_name(s, p) == s.insert(k, p),
    decreases s.len(),
{
    if s.len() == 0 {
        assert(s.insert(0, p) =~= seq![p]);
        0
    } else if name_le(s.last().name@, p.name@) {
        assert(s.insert(s.len() as int, p) =~= s.push(p));
        s.len() as int
    } else {
        let d = s.drop_last();
        let k = lemma_insert_by_name_position(d, p);
        assert(insert_by_name(s, p) == insert_by_name(d, p).push(s.last()));
        assert(d.insert(k, p).push(s.last()) =~= s.insert(k, p));
        k
    }
}

proof fn lemma_insert_multiset(s: Seq<BrewPackage>, k: int, p: BrewPackage)
    requires
        0 <= k <= s.len(),
    ensures
        s.insert(k, p).to_multiset() == s.to_multiset().insert(p),
{
    broadcast use vstd::seq_lib::group_to_multiset_ensures;
    broadcast use vstd::multiset::group_multiset_axioms;

    let t = s.insert(k, p);
    assert(t.remove(k) == s);
    assert(t[k] == p);
    assert(t.to_multiset().remove(p) == s.to_multiset());
    assert(t.to_multiset() =~= s.to_multiset().insert(p));
}

proof fn lemma_insert_sorted(s: Seq<BrewPackage>, p: BrewPackage)
    requires
        sorted_by_name(s),
    ensures
        sorted_by_name(insert_by_name(s, p)),
    decreases s.len(),
{
    let r = insert_by_name(s, p);
    if s.len() == 0 {
    } else if name_le(s.last().name@, p.name@) {
        assert forall|i: int, j: int| 0 <= i < j < r.len() implies name_le(r[i].name@, r[j].name@) by {
            if j == s.len() {
                if i < s.len() - 1 {
                    lemma_name_le_trans(s[i].name@, s.last().name@, p.name@);
                }
            }
        }
    } else {
        lemma_name_le_total(s.last().name@, p.name@);
        let d = s.drop_last();
        lemma_insert_sorted(d, p);
        let k = lemma_insert_by_name_position(d, p);
        let r0 = insert_by_name(d, p);
        d.insert_ensures(k, p);
        assert forall|i: int, j: int| 0 <= i < j < r.len() implies name_le(r[i].name@, r[j].name@) by {
            if j == r.len() - 1 {
                assert(r[j] == s.last());
                if i < k {
                    assert(r[i] == d[i]);
                } else if i == k {
                    assert(r[i] == p);
                } else {
                    assert(r[i] == d[i - 1]);
                }
            } else {
                assert(r[i] == r0[i]);
                assert(r[j] == r0[j]);
            }
        }
    }
}

#[verifier::rlimit(30)]
proof fn lemma_insert_distinct(s: Seq<BrewPackage>, k: int, p: BrewPackage)
    requires
        0 <= k <= s.len(),
        names_distinct(s),
        forall|i: int| 0 <= i < s.len() ==> (#[trigger] s[i]).name@ != p.name@,
    ensures
        names_distinct(s.insert(k, p)),
{
    let t = s.insert(k, p);
    assert(t.len() == s.len() + 1);
    assert forall|i: int| 0 <= i < t.len() implies #[trigger] t[i] == (if i < k {
        s[i]
    } else if i == k {
        p
    } else {
        s[i - 1]
    }) by {
        s.insert_ensures(k, p);
        if i > k {
            assert(t[(i - 1) + 1] == s[i - 1]);
        }
    }
    assert forall|i: int, j: int| 0 <= i < j < t.len() implies t[i].name@ != t[j].name@ by {
        if i < k && j > k {
            assert(t[j] == s[j - 1]);
        }
    }
}

/// What sorting by name gives: the same packages (as a multiset), in order of their names,
/// and no two with one name when the input had none.
pub proof fn lemma_sort_by_name_properties(s: Seq<BrewPackage>)
    ensures
        sort_by_name(s).to_multiset() == s.to_multiset(),
        sorted_by_name(sort_by_name(s)),
        names_distinct(s) ==> names_distinct(sort_by_name(s)),
    decreases s.len(),
{
    broadcast use vstd::seq_lib::group_to_multiset_ensures;

    if s.len() > 0 {
        let d = s.drop_last();
        lemma_sort_by_name_properties(d);
        let sd = sort_by_name(d);
        let k = lemma_insert_by_name_position(sd, s.last());
        lemma_insert_multiset(sd, k, s.last());
        assert(d.push(s.last()) == s);
        lemma_insert_sorted(sd, s.last());
        if names_distinct(s) {
            assert(names_distinct(d));
            assert forall|i: int| 0 <= i < sd.len() implies (#[trigger] sd[i]).name@ != s.last().name@ by {
                assert(sd.contains(sd[i]));
                assert(sd.to_multiset().count(sd[i]) > 0);
                assert(d.contains(sd[i]));
                let j = choose|j: int| 0 <= j < d.len() && d[j] == sd[i];
                assert(s[j] == d[j]);
            }
            lemma_insert_distinct(sd, k, s.last());
        }
    }
}

/// Two lists in name order, each without repeated names, that hold the same packages are
/// the same list.
pub proof fn lemma_sorted_distinct_unique(a: Seq<BrewPackage>, b: Seq<BrewPackage>)
    requires
        sorted_by_name(a),
        sorted_by_name(b),
        names_distinct(a),
        names_distinct(b),
        a.to_multiset() == b.to_multiset(),
    ensures
        a == b,
    decreases a.len(),
{
    broadcast use vstd::seq_lib::group_to_multiset_ensures;

    assert(a.to_multiset().len() == a.len());
    assert(b.to_multiset().len() == b.len());
    if a.len() == 0 {
    } else {
        assert(b.len() == a.len());
        assert(a.contains(a[0]));
        assert(b.to_multiset().count(a[0]) > 0);
        assert(b.contains(a[0]));
        assert(b.contains(b[0]));
        assert(a.to_multiset().count(b[0]) > 0);
        assert(a.contains(b[0]));
        let ia = choose|i: int| 0 <= i < a.len() && a[i] == b[0];
        let ib = choose|i: int| 0 <= i < b.len() && b[i] == a[0];
        lemma_name_le_refl(a[0].name@);
        if ia > 0 {
            assert(name_le(a[0].name@, a[ia].name@));
        }
        if ib > 0 {
            assert(name_le(b[0].name@, b[ib].name@));
        }
        lemma_name_le_antisym(a[0].name@, b[0].name@);
        if ib > 0 {
            assert(b[ib].name@ == b[0].name@);
        }
        assert(a[0] == b[0]);
        assert(a.remove(0) == a.drop_first());
        assert(b.remove(0) == b.drop_first());
        lemma_sorted_distinct_unique(a.drop_first(), b.drop_first());
        assert(a == seq![a[0]] + a.drop_first());
        assert(b == seq![b[0]] + b.drop_first());
    }
}

/// Sorting by name does not depend on the order of the input, as long as names do not repeat.
pub proof fn lemma_sort_by_name_order_independent(a: Seq<BrewPackage>, b: Seq<BrewPackage>)
    requires
        names_distinct(a),
        names_distinct(b),
        a.to_multiset() == b.to_multiset(),
    ensures
        sort_by_name(a) == sort_by_name(b),
{
    lemma_sort_by_name_properties(a);
    lemma_sort_by_name_properties(b);
    lemma_sorted_distinct_unique(sort_by_name(a), sort_by_name(b));
}

} // verus!
