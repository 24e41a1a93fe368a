//! Splitting the search roots into those that exist and those that do not.

use vstd::prelude::*;

verus! {

broadcast use vstd::seq_lib::group_to_multiset_ensures;

/// The paths, in order, whose existence flag is `exists`.
pub open spec fn paths_with<T>(paths: Seq<(T, bool)>, exists: bool) -> Seq<T>
    decreases paths.len(),
{
    if paths.len() == 0 {
        Seq::empty()
    } else {
        let earlier = paths_with(paths.drop_last(), exists);
        if paths.last().1 == exists {
            earlier.push(paths.last().0)
        } else {
            earlier
        }
    }
}

/// All the paths, in order.
pub open spec fn paths_of<T>(paths: Seq<(T, bool)>) -> Seq<T> {
    paths.map_values(|p: (T, bool)| p.0)
}

/// Splits `(path, exists)` pairs into the existing paths and the missing
/// ones, each in input order.
pub fn partition_paths<T>(paths: Vec<(T, bool)>) -> (r: (Vec<T>, Vec<T>))
    ensures
        r.0@ == paths_with(paths@, true),
        r.1@ == paths_with(paths@, false),
{
    let mut valid: Vec<T> = Vec::new();
    let mut invalid: Vec<T> = Vec::new();
    let ghost all = paths@;
    for pair in it: paths.into_iter()
        invariant
            it.seq() == all,
            valid@ == paths_with(all.take(it.index() as int), true),
            invalid@ == paths_with(all.take(it.index() as int), false),
    {
        let ghost i = it.index() as int;
        assert(all.take(i + 1).drop_last() =~= all.take(i));
        let (path, exists) = pair;
        if exists {
            valid.push(path);
        } else {
            invalid.push(path);
        }
    }
    assert(all.take(all.len() as int) =~= all);
    (valid, invalid)
}

/// What a run does once its roots are checked.
#[derive(Clone, Copy, Debug, PartialEq, Eq, Structural)]
pub enum RootsVerdict {
    /// At least one root exists: scan those that do.
    Scan,
    /// No root was given: nothing to do, and that is no failure.
    NothingGiven,
    /// Roots were given and none exists: the run fails.
    NoneUsable,
}

/// Decides the run's course from the number of existing and missing roots.
/// Missing roots beside an existing one do not fail the run.
pub fn roots_verdict(n_valid: usize, n_invalid: usize) -> (r: RootsVerdict)
    ensures
        r == (if n_valid > 0 {
            RootsVerdict::Scan
        } else if n_invalid == 0 {
            RootsVerdict::NothingGiven
        } else {
            RootsVerdict::NoneUsable
        }),
{
    if n_valid > 0 {
        RootsVerdict::Scan
    } else if n_invalid == 0 {
        RootsVerdict::NothingGiven
    } else {
        RootsVerdict::NoneUsable
    }
}

/// The two parts together hold every input path exactly as often as the
/// input does.
pub proof fn lemma_partition_covers<T>(paths: Seq<(T, bool)>)
    ensures
        (paths_with(paths, true) + paths_with(paths, false)).to_multiset()
            == paths_of(paths).to_multiset(),
    decreases paths.len(),
{
    vstd::seq_lib::lemma_multiset_commutative(paths_with(paths, true), paths_with(paths, false));
    if paths.len() == 0 {
        assert(paths_of(paths) =~= Seq::<T>::empty());
    } else {
        let init = paths.drop_last();
        let x = paths.last();
        lemma_partition_covers(init);
        vstd::seq_lib::lemma_multiset_commutative(paths_with(init, true), paths_with(init, false));
        assert(paths_of(paths) =~= paths_of(init).push(x.0));
    }
}

/// A path in the part for `exists` was given with that flag.
pub proof fn lemma_paths_with_source<T>(paths: Seq<(T, bool)>, exists: bool, x: T)
    requires
        paths_with(paths, exists).contains(x),
    ensures
        exists|i: int| 0 <= i < paths.len() && #[trigger] paths[i] == (x, exists),
    decreases paths.len(),
{
    let init = paths.drop_last();
    if paths.last() == (x, exists) {
        assert(paths[paths.len() - 1] == (x, exists));
    } else {
        if !paths_with(init, exists).contains(x) {
            assert(paths.last().1 == exists);
            let k = choose|k: int| 0 <= k < paths_with(paths, exists).len() && paths_with(paths, exists)[k] == x;
            assert(k == paths_with(init, exists).len());
        }
        lemma_paths_with_source(init, exists, x);
        let i = choose|i: int| 0 <= i < init.len() && #[trigger] init[i] == (x, exists);
        assert(paths[i] == (x, exists));
    }
}

/// Partitioning is a disjoint cover of the input: every input path lands in
/// the two parts together as often as it was given, and no path is in both
/// parts, provided that each path was judged the same way each time it occurs.
pub proof fn lemma_partition_disjoint_cover<T>(paths: Seq<(T, bool)>)
    requires
        forall|i: int, j: int|
            0 <= i < paths.len() && 0 <= j < paths.len() && (#[trigger] paths[i]).0 == (
            #[trigger] paths[j]).0 ==> paths[i].1 == paths[j].1,
    ensures
        (paths_with(paths, true) + paths_with(paths, false)).to_multiset()
            == paths_of(paths).to_multiset(),
        forall|x: T|
            !(#[trigger] paths_with(paths, true).contains(x) && paths_with(paths, false).contains(x)),
{
    lemma_partition_covers(paths);
    assert forall|x: T|
        !(#[trigger] paths_with(paths, true).contains(x) && paths_with(paths, false).contains(x)) by {
        if paths_with(paths, true).contains(x) && paths_with(paths, false).contains(x) {
            lemma_paths_with_source(paths, true, x);
            lemma_paths_with_source(paths, false, x);
            let i = choose|i: int| 0 <= i < paths.len() && #[trigger] paths[i] == (x, true);
            let j = choose|j: int| 0 <= j < paths.len() && #[trigger] paths[j] == (x, false);
            assert(paths[i].0 == paths[j].0);
        }
    }
}

} // verus!
