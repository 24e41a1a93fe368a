//! Merging the per-file results of a scan into one result set, and why the
//! order in which files finish does not change what is found.

use vstd::prelude::*;
use vstd::seq_lib::{lemma_flatten_concat, lemma_multiset_commutative};
use crate::search::{file_records, records_of_results, MatchRecord, SearchResult};

verus! {

broadcast use vstd::seq_lib::group_to_multiset_ensures;

/// The records of each batch, batch by batch.
pub open spec fn batch_records(batches: Seq<Vec<SearchResult>>) -> Seq<Seq<MatchRecord>> {
    batches.map_values(|b: Vec<SearchResult>| records_of_results(b@))
}

/// The per-file records of `files` (path and content), in the order given.
pub open spec fn per_file_records(
    files: Seq<(Seq<char>, Seq<u8>)>,
    keys: Seq<(Seq<char>, bool)>,
) -> Seq<Seq<MatchRecord>> {
    files.map_values(|f: (Seq<char>, Seq<u8>)| file_records(f.0, f.1, keys))
}

/// What a scan of `files` on one worker records: each file's records in turn.
pub open spec fn scan_records(
    files: Seq<(Seq<char>, Seq<u8>)>,
    keys: Seq<(Seq<char>, bool)>,
) -> Seq<MatchRecord> {
    per_file_records(files, keys).flatten()
}

/// Appends the batches one after the other; each batch stays contiguous and
/// in its own order.
pub fn merge_batches(batches: Vec<Vec<SearchResult>>) -> (r: Vec<SearchResult>)
    ensures
        records_of_results(r@) == batch_records(batches@).flatten(),
{
    let ghost all = batch_records(batches@);
    let mut out: Vec<SearchResult> = Vec::new();
    assert(all.take(0).flatten() =~= Seq::<MatchRecord>::empty());
    for batch in it: batches.into_iter()
        invariant
            it.seq() == batches@,
            all == batch_records(batches@),
            records_of_results(out@) == all.take(it.index() as int).flatten(),
    {
        let ghost before = out@;
        let ghost i = it.index() as int;
        let mut batch = batch;
        assert(all[i] == records_of_results(batch@));
        out.append(&mut batch);
        assert(all.take(i + 1) =~= all.take(i).push(all[i]));
        proof {
            all.take(i).lemma_flatten_push(all[i]);
        }
        assert(records_of_results(out@) =~= records_of_results(before) + all[i]);
    }
    assert(all.take(all.len() as int) =~= all);
    out
}

/// Removing one batch from a sequence of batches removes exactly its records
/// from the multiset of all records.
pub proof fn lemma_flatten_multiset_remove<A>(s: Seq<Seq<A>>, j: int)
    requires
        0 <= j < s.len(),
    ensures
        s.flatten().to_multiset() =~= s.remove(j).flatten().to_multiset().add(s[j].to_multiset()),
{
    let front = s.take(j);
    let back = s.skip(j + 1);
    assert(s =~= front + (seq![s[j]] + back));
    assert(s.remove(j) =~= front + back);
    lemma_flatten_concat(front, seq![s[j]] + back);
    lemma_flatten_concat(seq![s[j]], back);
    lemma_flatten_concat(front, back);
    seq![s[j]].lemma_flatten_singleton();
    lemma_multiset_commutative(front.flatten(), s[j] + back.flatten());
    lemma_multiset_commutative(s[j], back.flatten());
    lemma_multiset_commutative(front.flatten(), back.flatten());
}

/// Batches merged in any order hold the same records: if two sequences of
/// batches are rearrangements of each other, their merged records are equal
/// as multisets.
pub proof fn lemma_merge_order_irrelevant<A>(a: Seq<Seq<A>>, b: Seq<Seq<A>>)
    requires
        a.to_multiset() == b.to_multiset(),
    ensures
        a.flatten().to_multiset() == b.flatten().to_multiset(),
    decreases a.len(),
{
    if a.len() == 0 {
        a.to_multiset_ensures();
        b.to_multiset_ensures();
        assert(b.len() == 0);
        assert(a.flatten() =~= b.flatten());
    } else {
        let x = a[0];
        assert(a.to_multiset().count(x) > 0);
        assert(b.contains(x));
        let j = choose|j: int| 0 <= j < b.len() && b[j] == x;
        assert(a.remove(0) =~= a.drop_first());
        assert(a.remove(0).to_multiset() =~= b.remove(j).to_multiset());
        lemma_merge_order_irrelevant(a.remove(0), b.remove(j));
        lemma_flatten_multiset_remove(a, 0);
        lemma_flatten_multiset_remove(b, j);
    }
}

/// Mapping the elements of two rearrangements of one sequence gives
/// rearrangements of one sequence.
pub proof fn lemma_map_multiset<A, B>(a: Seq<A>, b: Seq<A>, f: spec_fn(A) -> B)
    requires
        a.to_multiset() == b.to_multiset(),
    ensures
        a.map_values(f).to_multiset() == b.map_values(f).to_multiset(),
    decreases a.len(),
{
    if a.len() == 0 {
        a.to_multiset_ensures();
        b.to_multiset_ensures();
        assert(b.len() == 0);
        assert(a.map_values(f) =~= b.map_values(f));
    } else {
        let x = a[0];
        assert(a.to_multiset().count(x) > 0);
        assert(b.contains(x));
        let j = choose|j: int| 0 <= j < b.len() && b[j] == x;
        assert(a.remove(0).to_multiset() =~= b.remove(j).to_multiset());
        lemma_map_multiset(a.remove(0), b.remove(j), f);
        assert(a.map_values(f).remove(0) =~= a.remove(0).map_values(f));
        assert(b.map_values(f).remove(j) =~= b.remove(j).map_values(f));
        assert(a.map_values(f).to_multiset() =~= a.remove(0).map_values(f).to_multiset().insert(f(x)));
        assert(b.map_values(f).to_multiset() =~= b.remove(j).map_values(f).to_multiset().insert(f(x)));
    }
}

/// The number of workers does not change what a scan finds: merging the
/// per-file batches in whatever order the workers finish them gives, as a
/// multiset, what a single worker scanning the files in turn gives.
pub proof fn lemma_worker_count_irrelevant(
    files: Seq<(Seq<char>, Seq<u8>)>,
    keys: Seq<(Seq<char>, bool)>,
    finished: Seq<Seq<MatchRecord>>,
)
    requires
        finished.to_multiset() == per_file_records(files, keys).to_multiset(),
    ensures
        finished.flatten().to_multiset() == scan_records(files, keys).to_multiset(),
{
    lemma_merge_order_irrelevant(finished, per_file_records(files, keys));
}

/// Scanning the same files twice with the same patterns finds the same
/// records as a multiset, whatever order the files were listed in and
/// whatever order each run's workers finished them in.
pub proof fn lemma_scan_repeatable(
    files_a: Seq<(Seq<char>, Seq<u8>)>,
    files_b: Seq<(Seq<char>, Seq<u8>)>,
    keys: Seq<(Seq<char>, bool)>,
    finished_a: Seq<Seq<MatchRecord>>,
    finished_b: Seq<Seq<MatchRecord>>,
)
    requires
        files_a.to_multiset() == files_b.to_multiset(),
        finished_a.to_multiset() == per_file_records(files_a, keys).to_multiset(),
        finished_b.to_multiset() == per_file_records(files_b, keys).to_multiset(),
    ensures
        finished_a.flatten().to_multiset() == finished_b.flatten().to_multiset(),
{
    lemma_map_multiset(files_a, files_b, |f: (Seq<char>, Seq<u8>)| file_records(f.0, f.1, keys));
    lemma_merge_order_irrelevant(finished_a, finished_b);
}

} // verus!
