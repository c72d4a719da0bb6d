//! Gathering the results of work that was fanned out over the selected assets.
//!
//! Each worker hands back either its outputs or a failure that names the asset
//! it was working on. How the results are gathered depends on the transform.
//! Checksum files are one artifact: the first failure fails the run and nothing
//! is produced. Signatures are independent: the failures are reported and the
//! other signatures are kept.

use vstd::prelude::*;

verus! {

/// The number of workers that fetch, transform and publish at the same time,
/// whatever the number of assets.
pub const WORKERS: usize = 8;

/// The failure of one worker.
#[derive(Debug)]
pub struct Failure {
    /// Name of the asset or output the worker was handling.
    pub asset: String,
    /// What went wrong, as the underlying transport or subprocess reported it.
    pub cause: String,
}

/// The index of the first failure in `results`, or their number if none
/// failed.
pub open spec fn first_failure<T>(results: Seq<Result<T, Failure>>) -> int
    decreases results.len(),
{
    if results.len() == 0 {
        0
    } else if results[0] is Err {
        0
    } else {
        1 + first_failure(results.drop_first())
    }
}

/// The values of the successful results, in order.
pub open spec fn successes<T>(results: Seq<Result<T, Failure>>) -> Seq<T>
    decreases results.len(),
{
    if results.len() == 0 {
        Seq::empty()
    } else {
        match results.last() {
            Ok(value) => successes(results.drop_last()).push(value),
            Err(_) => successes(results.drop_last()),
        }
    }
}

/// The failures among the results, in order.
pub open spec fn failures<T>(results: Seq<Result<T, Failure>>) -> Seq<Failure>
    decreases results.len(),
{
    if results.len() == 0 {
        Seq::empty()
    } else {
        match results.last() {
            Ok(_) => failures(results.drop_last()),
            Err(failure) => failures(results.drop_last()).push(failure),
        }
    }
}

/// `first_failure` is within bounds, points at a failure when it is below the
/// length, and every result before it is a success.
pub proof fn lemma_first_failure<T>(results: Seq<Result<T, Failure>>)
    ensures
        0 <= first_failure(results) <= results.len(),
        first_failure(results) < results.len() ==> results[first_failure(results)] is Err,
        forall|j: int| 0 <= j < first_failure(results) ==> (#[trigger] results[j]) is Ok,
    decreases results.len(),
{
    if results.len() != 0 && results[0] is Ok {
        let rest = results.drop_first();
        lemma_first_failure(rest);
        assert forall|j: int| 0 <= j < first_failure(results) implies (#[trigger] results[j]) is Ok by {
            if j > 0 {
                assert(results[j] == rest[j - 1]);
            }
        }
    }
}

/// Every result is either among the successes or among the failures.
pub proof fn lemma_partition<T>(results: Seq<Result<T, Failure>>)
    ensures
        successes(results).len() + failures(results).len() == results.len(),
        failures(results).len() == 0 <==> first_failure(results) == results.len(),
    decreases results.len(),
{
    lemma_first_failure(results);
    if results.len() != 0 {
        let rest = results.drop_last();
        lemma_partition(rest);
        lemma_first_failure(rest);
        let f = first_failure(results);
        let g = first_failure(rest);
        if results.last() is Ok {
            if g < rest.len() {
                assert(rest[g] == results[g]);
                assert(f <= g);
            } else {
                if f < results.len() {
                    assert(f < rest.len());
                    assert(rest[f] == results[f]);
                }
            }
        } else {
            assert(f < results.len());
        }
    }
}

/// Gathers the results of a run that is one artifact. The values of all the
/// results are returned if every worker succeeded; otherwise the first
/// failure, in the order of the results, is returned and the values are
/// dropped.
pub fn collect_all<T>(results: Vec<Result<T, Failure>>) -> (gathered: Result<Vec<T>, Failure>)
    ensures
        match gathered {
            Ok(values) => {
                &&& first_failure(results@) == results@.len()
                &&& values@ == successes(results@)
                &&& values@.len() == results@.len()
            },
            Err(failure) => {
                &&& first_failure(results@) < results@.len()
                &&& results@[first_failure(results@)] == Err::<T, Failure>(failure)
            },
        },
{
    let ghost all = results@;
    let mut values: Vec<T> = Vec::new();
    proof {
        lemma_first_failure(all);
    }
    for result in it: results
        invariant
            it.seq() == all,
            values@ == successes(all.take(it.index() as int)),
            values@.len() == it.index(),
            forall|j: int| 0 <= j < it.index() ==> (#[trigger] all[j]) is Ok,
            0 <= first_failure(all) <= all.len(),
            first_failure(all) < all.len() ==> all[first_failure(all)] is Err,
            forall|j: int| 0 <= j < first_failure(all) ==> (#[trigger] all[j]) is Ok,
    {
        proof {
            let next = all.take(it.index() as int + 1);
            assert(next.drop_last() =~= all.take(it.index() as int));
            assert(next.last() == all[it.index() as int]);
        }
        match result {
            Ok(value) => {
                values.push(value);
            },
            Err(failure) => {
                assert(first_failure(all) == it.index());
                return Err(failure);
            },
        }
    }
    assert(all.take(all.len() as int) =~= all);
    Ok(values)
}

/// Gathers the results of a run whose outputs are independent: the values of
/// the workers that succeeded, and the failures of the others, each in the
/// order of the results.
pub fn collect_each<T>(results: Vec<Result<T, Failure>>) -> (gathered: (Vec<T>, Vec<Failure>))
    ensures
        gathered.0@ == successes(results@),
        gathered.1@ == failures(results@),
        gathered.0@.len() + gathered.1@.len() == results@.len(),
{
    let ghost all = results@;
    let mut values: Vec<T> = Vec::new();
    let mut failed: Vec<Failure> = Vec::new();
    for result in it: results
        invariant
            it.seq() == all,
            values@ == successes(all.take(it.index() as int)),
            failed@ == failures(all.take(it.index() as int)),
    {
        proof {
            let next = all.take(it.index() as int + 1);
            assert(next.drop_last() =~= all.take(it.index() as int));
            assert(next.last() == all[it.index() as int]);
        }
        match result {
            Ok(value) => {
                values.push(value);
            },
            Err(failure) => {
                failed.push(failure);
            },
        }
    }
    proof {
        assert(all.take(all.len() as int) =~= all);
        lemma_partition(all);
    }
    (values, failed)
}

} // verus!
