//! Windowing: a retrieved sequence is worked off in bounded batches.

use super::error::CoordinateError;
use futures::FutureExt;
use futures::StreamExt;
use futures_batch::ChunksTimeoutStreamExt;
use vstd::arithmetic::div_mod::lemma_fundamental_div_mod_converse;
use vstd::prelude::*;

verus! {

/// No window may be asked to hold more than this many entries.
pub const MAX_BATCH_SIZE: usize = 1024;

/// How long, in milliseconds, a window waits for more entries before it is
/// flushed.
pub const BATCH_MILLIS: u64 = 1;

/// `items` cut into consecutive runs of `capacity` items; only the last run
/// may be shorter, and none is empty.
pub open spec fn chunks<T>(items: Seq<T>, capacity: nat) -> Seq<Seq<T>>
    decreases items.len(),
{
    if capacity == 0 || items.len() == 0 {
        Seq::empty()
    } else if items.len() <= capacity {
        seq![items]
    } else {
        seq![items.take(capacity as int)] + chunks(items.skip(capacity as int), capacity)
    }
}

/// The batches one after another, as one sequence.
pub open spec fn flatten<T>(batches: Seq<Seq<T>>) -> Seq<T>
    decreases batches.len(),
{
    if batches.len() == 0 {
        Seq::empty()
    } else {
        batches[0] + flatten(batches.skip(1))
    }
}

/// What each batch holds.
pub open spec fn batch_views<T>(batches: Seq<Vec<T>>) -> Seq<Seq<T>> {
    Seq::new(batches.len(), |i: int| batches[i]@)
}

/// Runs `entries` through `futures_batch`'s `chunks_timeout` adaptor, fed by
/// `futures::stream::iter` and drained by `collect` within a single poll.
///
/// Trusted: a stream made from a vector is ready at every poll, so the
/// adaptor never gets to consult its timer; it hands out a batch each time
/// `capacity` entries have gathered and, at the end of the stream, whatever
/// is left unless that is nothing. The adaptor refuses a capacity of zero
/// and allocates room for `capacity` entries up front.
#[verifier::external_body]
fn chunks_timeout(
    entries: Vec<Result<String, CoordinateError>>,
    capacity: usize,
    millis: u64,
) -> (batches: Vec<Vec<Result<String, CoordinateError>>>)
    requires
        0 < capacity <= MAX_BATCH_SIZE,
    ensures
        batch_views(batches@) == chunks(entries@, capacity as nat),
{
    futures::stream::iter(entries)
        .chunks_timeout(capacity, std::time::Duration::from_millis(millis))
        .collect::<Vec<Vec<Result<String, CoordinateError>>>>()
        .now_or_never()
        .unwrap_or_default()
}

/// Cuts `entries` into the batches in which a pass works them off: batches
/// of `capacity` entries, in the order of the entries, the last one holding
/// what is left.
pub fn window(entries: Vec<Result<String, CoordinateError>>, capacity: usize) -> (batches: Vec<
    Vec<Result<String, CoordinateError>>,
>)
    requires
        0 < capacity <= MAX_BATCH_SIZE,
    ensures
        batch_views(batches@) == chunks(entries@, capacity as nat),
        flatten(batch_views(batches@)) == entries@,
        forall|i: int|
            0 <= i < batches@.len() ==> 0 < (#[trigger] batches@[i])@.len() <= capacity,
{
    let batches = chunks_timeout(entries, capacity, BATCH_MILLIS);
    proof {
        lemma_chunks_flatten(entries@, capacity as nat);
        lemma_chunks_bounded(entries@, capacity as nat);
        assert forall|i: int| 0 <= i < batches@.len() implies 0 < (#[trigger] batches@[i])@.len()
            <= capacity by {
            assert(batch_views(batches@)[i] == batches@[i]@);
        }
    }
    batches
}

/// Putting the batches back together gives the items back, in their order.
pub proof fn lemma_chunks_flatten<T>(items: Seq<T>, capacity: nat)
    requires
        capacity > 0,
    ensures
        flatten(chunks(items, capacity)) == items,
    decreases items.len(),
{
    if items.len() == 0 {
    } else if items.len() <= capacity {
        let only = seq![items];
        assert(only.skip(1) =~= Seq::<Seq<T>>::empty());
        assert(flatten(only.skip(1)) =~= Seq::<T>::empty());
        assert(flatten(only) =~= items);
    } else {
        let rest = chunks(items.skip(capacity as int), capacity);
        let all = seq![items.take(capacity as int)] + rest;
        lemma_chunks_flatten(items.skip(capacity as int), capacity);
        assert(all.skip(1) =~= rest);
        assert(flatten(all) =~= items.take(capacity as int) + items.skip(capacity as int));
        assert(items.take(capacity as int) + items.skip(capacity as int) =~= items);
    }
}

/// No batch is empty, none holds more than `capacity` items, and all but the
/// last are full.
pub proof fn lemma_chunks_bounded<T>(items: Seq<T>, capacity: nat)
    requires
        capacity > 0,
    ensures
        forall|i: int|
            0 <= i < chunks(items, capacity).len() ==> 0 < (#[trigger] chunks(
                items,
                capacity,
            )[i]).len() <= capacity,
        forall|i: int|
            0 <= i < chunks(items, capacity).len() - 1 ==> (#[trigger] chunks(
                items,
                capacity,
            )[i]).len() == capacity,
    decreases items.len(),
{
    if items.len() > capacity {
        lemma_chunks_bounded(items.skip(capacity as int), capacity);
        let rest = chunks(items.skip(capacity as int), capacity);
        let all = chunks(items, capacity);
        assert(rest.len() > 0);
        assert forall|i: int| 0 <= i < all.len() implies 0 < (#[trigger] all[i]).len()
            <= capacity by {
            if i > 0 {
                assert(all[i] == rest[i - 1]);
            }
        }
        assert forall|i: int| 0 <= i < all.len() - 1 implies (#[trigger] all[i]).len()
            == capacity by {
            if i > 0 {
                assert(all[i] == rest[i - 1]);
            }
        }
    }
}

/// The item at position `k` sits in batch `k / capacity`, at place `k % capacity`.
pub proof fn lemma_chunk_of_item<T>(items: Seq<T>, capacity: nat, k: int)
    requires
        capacity > 0,
        0 <= k < items.len(),
    ensures
        0 <= k / (capacity as int) < chunks(items, capacity).len(),
        0 <= k % (capacity as int) < chunks(items, capacity)[k / (capacity as int)].len(),
        chunks(items, capacity)[k / (capacity as int)][k % (capacity as int)] == items[k],
    decreases items.len(),
{
    let c = capacity as int;
    if k < c {
        lemma_fundamental_div_mod_converse(k, c, 0, k);
    } else {
        let rest = items.skip(c);
        lemma_chunk_of_item(rest, capacity, k - c);
        let q = (k - c) / c;
        let r = (k - c) % c;
        assert(k - c == q * c + r) by {
            vstd::arithmetic::div_mod::lemma_fundamental_div_mod(k - c, c);
            assert(c * q == q * c) by (nonlinear_arith);
        }
        assert(k == (q + 1) * c + r) by (nonlinear_arith)
            requires
                k - c == q * c + r,
        ;
        lemma_fundamental_div_mod_converse(k, c, q + 1, r);
        assert(chunks(items, capacity)[q + 1] == chunks(rest, capacity)[q]);
    }
}

/// Place `j` of batch `i` holds the item at position `i * capacity + j`.
pub proof fn lemma_item_of_slot<T>(items: Seq<T>, capacity: nat, i: int, j: int)
    requires
        capacity > 0,
        0 <= i < chunks(items, capacity).len(),
        0 <= j < chunks(items, capacity)[i].len(),
    ensures
        0 <= i * capacity + j < items.len(),
        chunks(items, capacity)[i][j] == items[i * capacity + j],
    decreases items.len(),
{
    let c = capacity as int;
    if items.len() <= capacity {
        assert(i * c == 0) by (nonlinear_arith)
            requires
                i == 0,
        ;
    } else if i == 0 {
        assert(i * c == 0) by (nonlinear_arith)
            requires
                i == 0,
        ;
    } else {
        let rest = items.skip(c);
        assert(chunks(items, capacity)[i] == chunks(rest, capacity)[i - 1]);
        lemma_item_of_slot(rest, capacity, i - 1, j);
        assert((i - 1) * c + c == i * c) by (nonlinear_arith);
    }
}

/// The item at position `k` has its place in the batches: batch
/// `k / capacity`, place `k % capacity`.
pub open spec fn item_placed<T>(items: Seq<T>, capacity: nat, k: int) -> bool {
    let batches = chunks(items, capacity);
    let i = k / (capacity as int);
    let j = k % (capacity as int);
    0 <= i < batches.len() && 0 <= j < batches[i].len() && batches[i][j] == items[k]
}

/// Place `j` of batch `i` exists within `capacity` and holds the item at
/// position `i * capacity + j`.
pub open spec fn slot_filled<T>(items: Seq<T>, capacity: nat, i: int, j: int) -> bool {
    let batches = chunks(items, capacity);
    let k = i * capacity + j;
    j < capacity && 0 <= k < items.len() && batches[i][j] == items[k]
}

/// Windowing loses nothing, repeats nothing and keeps the order: the places
/// of the batches, read batch by batch, are the positions of the items, one
/// for one, and no batch exceeds `capacity`.
pub proof fn lemma_windowing_keeps_every_item_once<T>(items: Seq<T>, capacity: nat)
    requires
        capacity > 0,
    ensures
        forall|k: int| 0 <= k < items.len() ==> #[trigger] item_placed(items, capacity, k),
        forall|i: int, j: int|
            0 <= i < chunks(items, capacity).len() && 0 <= j < chunks(items, capacity)[i].len()
                ==> #[trigger] slot_filled(items, capacity, i, j),
        flatten(chunks(items, capacity)) == items,
{
    assert forall|k: int| 0 <= k < items.len() implies #[trigger] item_placed(
        items,
        capacity,
        k,
    ) by {
        lemma_chunk_of_item(items, capacity, k);
    }
    assert forall|i: int, j: int|
        0 <= i < chunks(items, capacity).len() && 0 <= j < chunks(
            items,
            capacity,
        )[i].len() implies #[trigger] slot_filled(items, capacity, i, j) by {
        lemma_item_of_slot(items, capacity, i, j);
        lemma_chunks_bounded(items, capacity);
    }
    lemma_chunks_flatten(items, capacity);
}

} // verus!
