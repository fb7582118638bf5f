//! What every coordination pass shares: the progress of one unit of work,
//! the way results add up, and the walk over the retrieved addresses.

use super::batch::{batch_views, flatten, window, MAX_BATCH_SIZE};
use super::error::CoordinateError;
use vstd::prelude::*;

verus! {

/// Where one unit of work stands: it either needs an answer to `request`
/// before it can go on from `stage`, or it has come to its result.
pub enum Progress<S, Q> {
    Call(S, Q),
    Done(Result<(), CoordinateError>),
}

/// Where the addresses of the proxies come from. An entry that could not be
/// retrieved stands in the list as its failure.
pub trait ProxiesRetriever: Sync + Send + 'static {
    fn retrieve_proxies(&self) -> Vec<Result<String, CoordinateError>>;
}

/// The first failure among `results`, or success if there is none.
pub open spec fn first_error(results: Seq<Result<(), CoordinateError>>) -> Result<
    (),
    CoordinateError,
>
    decreases results.len(),
{
    if results.len() == 0 {
        Ok(())
    } else if results[0] is Err {
        results[0]
    } else {
        first_error(results.skip(1))
    }
}

/// The earlier of two results wins if it is a failure.
pub open spec fn earlier(
    first: Result<(), CoordinateError>,
    second: Result<(), CoordinateError>,
) -> Result<(), CoordinateError> {
    if first is Err {
        first
    } else {
        second
    }
}

/// There is only one way to succeed.
pub proof fn lemma_ok_is_unit(result: Result<(), CoordinateError>)
    ensures
        result is Ok ==> result == Ok::<(), CoordinateError>(()),
{
    match result {
        Ok(unit) => {
            assert(unit == ());
        },
        Err(_) => {},
    }
}

/// A single result is its own first failure.
pub proof fn lemma_first_error_single(result: Result<(), CoordinateError>)
    ensures
        first_error(seq![result]) == result,
{
    let one = seq![result];
    assert(one.skip(1) =~= Seq::<Result<(), CoordinateError>>::empty());
    assert(first_error(one.skip(1)) == Ok::<(), CoordinateError>(()));
    lemma_ok_is_unit(result);
}

/// The first failure of two runs of results is the first failure of the
/// first run, if it has one, and else that of the second.
pub proof fn lemma_first_error_concat(
    a: Seq<Result<(), CoordinateError>>,
    b: Seq<Result<(), CoordinateError>>,
)
    ensures
        first_error(a + b) == earlier(first_error(a), first_error(b)),
    decreases a.len(),
{
    if a.len() == 0 {
        assert(a + b =~= b);
    } else {
        assert((a + b).skip(1) =~= a.skip(1) + b);
        lemma_first_error_concat(a.skip(1), b);
    }
}

/// A pass fails exactly when one of its results is a failure, and then with
/// the first of them.
pub proof fn lemma_first_error_is_first(results: Seq<Result<(), CoordinateError>>)
    ensures
        first_error(results) is Ok <==> forall|i: int|
            0 <= i < results.len() ==> (#[trigger] results[i]) is Ok,
        first_error(results) is Err ==> exists|i: int|
            0 <= i < results.len() && #[trigger] results[i] == first_error(results) && forall|
                j: int,
            |
                0 <= j < i ==> (#[trigger] results[j]) is Ok,
    decreases results.len(),
{
    if results.len() == 0 {
    } else if results[0] is Err {
        assert(results[0] == first_error(results));
    } else {
        let rest = results.skip(1);
        lemma_first_error_is_first(rest);
        assert forall|i: int| 0 <= i < rest.len() implies rest[i] == results[i + 1] by {}
        if first_error(rest) is Ok {
            assert forall|i: int| 0 <= i < results.len() implies (#[trigger] results[i]) is Ok by {
                if i > 0 {
                    assert(rest[i - 1] is Ok);
                }
            }
        } else {
            let i = choose|i: int|
                0 <= i < rest.len() && #[trigger] rest[i] == first_error(rest) && forall|j: int|
                    0 <= j < i ==> (#[trigger] rest[j]) is Ok;
            assert(results[i + 1] == first_error(results));
            assert forall|j: int| 0 <= j < i + 1 implies (#[trigger] results[j]) is Ok by {
                if j > 0 {
                    assert(rest[j - 1] is Ok);
                }
            }
            assert(results[i + 1] is Err);
        }
    }
}

/// Adds the results of one batch to what the pass has come to so far: the
/// pass keeps its failure if it has one and takes the batch's first failure
/// otherwise.
pub fn fold_results(
    acc: Result<(), CoordinateError>,
    results: Vec<Result<(), CoordinateError>>,
) -> (r: Result<(), CoordinateError>)
    ensures
        r == earlier(acc, first_error(results@)),
        r == first_error(seq![acc] + results@),
{
    let mut res = acc;
    proof {
        assert(results@.take(0) =~= Seq::<Result<(), CoordinateError>>::empty());
        lemma_ok_is_unit(acc);
    }
    for result in it: results
        invariant
            it.seq() == results@,
            res == earlier(acc, first_error(results@.take(it.index() as int))),
    {
        proof {
            let n = it.index() as int;
            let seen = results@.take(n);
            assert(results@.take(n + 1) =~= seen + seq![result]);
            lemma_first_error_concat(seen, seq![result]);
            lemma_first_error_single(result);
        }
        if res.is_ok() {
            res = result;
        }
    }
    proof {
        assert(results@.take(results@.len() as int) =~= results@);
        lemma_first_error_concat(seq![acc], results@);
        lemma_first_error_single(acc);
    }
    res
}

/// What a retrieved entry calls for.
pub enum Claim {
    /// The address was retrieved: there is work to do for it.
    Work(String),
    /// The outcome stands without any work.
    Settled(Result<(), CoordinateError>),
}

/// Settles what a retrieved entry calls for: an address calls for work, and
/// an entry that could not be retrieved stands as its own failure. It is not
/// dropped.
pub fn claim(entry: Result<String, CoordinateError>) -> (claimed: Claim)
    ensures
        claimed == match entry {
            Ok(address) => Claim::Work(address),
            Err(err) => Claim::Settled(Err(err)),
        },
{
    match entry {
        Ok(address) => Claim::Work(address),
        Err(err) => Claim::Settled(Err(err)),
    }
}

/// What retrieval alone contributes to a pass: a failure for each entry that
/// could not be retrieved, success for each address.
pub open spec fn retrieval_results(entries: Seq<Result<String, CoordinateError>>) -> Seq<
    Result<(), CoordinateError>,
> {
    Seq::new(
        entries.len(),
        |i: int|
            match entries[i] {
                Ok(_) => Ok(()),
                Err(e) => Err(e),
            },
    )
}

/// What a retrieved entry may come to: an entry that failed to be retrieved
/// is its own failure, and no work is done for it; an address comes to
/// whatever `work` may return for it.
pub open spec fn entry_may_yield<F: Fn(String) -> Result<(), CoordinateError>>(
    work: &F,
    entry: Result<String, CoordinateError>,
    outcome: Result<(), CoordinateError>,
) -> bool {
    match entry {
        Err(e) => outcome == Err::<(), CoordinateError>(e),
        Ok(address) => call_ensures(*work, (address,), outcome),
    }
}

/// `outcomes` holds, entry for entry, something each of `entries` may come to.
pub open spec fn outcomes_of<F: Fn(String) -> Result<(), CoordinateError>>(
    work: &F,
    entries: Seq<Result<String, CoordinateError>>,
    outcomes: Seq<Result<(), CoordinateError>>,
) -> bool {
    &&& outcomes.len() == entries.len()
    &&& forall|i: int|
        0 <= i < entries.len() ==> entry_may_yield(work, entries[i], #[trigger] outcomes[i])
}

/// The pass over `entries` may come to `r`: every entry has been worked off,
/// and `r` is the first failure in the order of the entries.
pub open spec fn pass_may_yield<F: Fn(String) -> Result<(), CoordinateError>>(
    work: &F,
    entries: Seq<Result<String, CoordinateError>>,
    r: Result<(), CoordinateError>,
) -> bool {
    exists|outcomes: Seq<Result<(), CoordinateError>>| #[trigger]
        outcomes_of(work, entries, outcomes) && r == first_error(outcomes)
}

/// Works off one batch, entry by entry, and hands back one result for each.
pub fn run_batch<F: Fn(String) -> Result<(), CoordinateError>>(
    batch: Vec<Result<String, CoordinateError>>,
    work: &F,
) -> (results: Vec<Result<(), CoordinateError>>)
    requires
        forall|address: String| call_requires(*work, (address,)),
    ensures
        outcomes_of(work, batch@, results@),
{
    let mut results: Vec<Result<(), CoordinateError>> = Vec::new();
    for entry in it: batch
        invariant
            forall|address: String| call_requires(*work, (address,)),
            it.seq() == batch@,
            outcomes_of(work, batch@.take(it.index() as int), results@),
    {
        let ghost before = results@;
        let outcome = match claim(entry) {
            Claim::Work(address) => work(address),
            Claim::Settled(outcome) => outcome,
        };
        results.push(outcome);
        proof {
            let n = it.index() as int;
            assert forall|i: int| 0 <= i < n + 1 implies entry_may_yield(
                work,
                batch@.take(n + 1)[i],
                #[trigger] results@[i],
            ) by {
                if i < n {
                    assert(batch@.take(n)[i] == batch@.take(n + 1)[i]);
                    assert(results@[i] == before[i]);
                }
            }
        }
    }
    proof {
        assert(batch@.take(batch@.len() as int) =~= batch@);
    }
    results
}

/// Flattening takes a further batch at the end.
pub proof fn lemma_flatten_push<T>(batches: Seq<Seq<T>>, last: Seq<T>)
    ensures
        flatten(batches.push(last)) == flatten(batches) + last,
    decreases batches.len(),
{
    if batches.len() == 0 {
        assert(batches.push(last).skip(1) =~= Seq::<Seq<T>>::empty());
        assert(flatten(batches.push(last).skip(1)) =~= Seq::<T>::empty());
        assert(flatten(batches.push(last)) =~= last);
        assert(flatten(batches) + last =~= last);
    } else {
        assert(batches.push(last).skip(1) =~= batches.skip(1).push(last));
        lemma_flatten_push(batches.skip(1), last);
        assert(flatten(batches.push(last)) =~= flatten(batches) + last);
    }
}

/// One pass over what was retrieved: the entries are windowed into batches
/// of at most `capacity`, each batch is worked off before the next, and a
/// failure never keeps a later entry from being worked off.
pub fn run_pass<F: Fn(String) -> Result<(), CoordinateError>>(
    entries: Vec<Result<String, CoordinateError>>,
    capacity: usize,
    work: &F,
) -> (r: Result<(), CoordinateError>)
    requires
        0 < capacity <= MAX_BATCH_SIZE,
        forall|address: String| call_requires(*work, (address,)),
    ensures
        pass_may_yield(work, entries@, r),
{
    let batches = window(entries, capacity);
    let ghost all = batch_views(batches@);
    let ghost mut outcomes: Seq<Result<(), CoordinateError>> = Seq::empty();
    let mut res: Result<(), CoordinateError> = Ok(());
    proof {
        assert(all.take(0) =~= Seq::<Seq<Result<String, CoordinateError>>>::empty());
    }
    for batch in it: batches
        invariant
            forall|address: String| call_requires(*work, (address,)),
            it.seq() == batches@,
            all == batch_views(batches@),
            outcomes_of(work, flatten(all.take(it.index() as int)), outcomes),
            res == first_error(outcomes),
    {
        let ghost n = it.index() as int;
        let ghost done = flatten(all.take(n));
        let ghost before = outcomes;
        let results = run_batch(batch, work);
        proof {
            assert(all.take(n + 1) =~= all.take(n).push(batch@));
            lemma_flatten_push(all.take(n), batch@);
            outcomes = before + results@;
            lemma_first_error_concat(before, results@);
            assert forall|i: int| 0 <= i < (done + batch@).len() implies entry_may_yield(
                work,
                (done + batch@)[i],
                #[trigger] outcomes[i],
            ) by {
                if i < done.len() {
                    assert(outcomes[i] == before[i]);
                } else {
                    assert(outcomes[i] == results@[i - done.len()]);
                }
            }
        }
        res = fold_results(res, results);
    }
    proof {
        assert(all.take(all.len() as int) =~= all);
    }
    res
}

} // verus!
