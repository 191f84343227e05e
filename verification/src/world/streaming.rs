//! Asking for chunks and passing them on as they arrive.
//!
//! The world decides what is asked for and in which order, how many chunks
//! may wait between the workers and the consumer, and what becomes of each
//! chunk that arrives, be it one of a stream or the one chunk that was
//! asked for. Fetching, waiting and sending are the caller's.

use super::math::Vector2;
use super::World;
use vstd::prelude::*;

verus! {

/// What is handed to the workers: the chunks to fetch, in this order, and
/// the number of fetched chunks that may wait to be taken. A worker that
/// finds no room waits, so a consumer that stops taking chunks stops the
/// fetching too.
#[derive(Clone, Debug, PartialEq, Eq)]
pub struct ChunkRequest {
    pub chunks: Vec<Vector2>,
    pub capacity: usize,
}

/// A chunk that has arrived, and what is known at that moment.
#[derive(Clone, Copy, Debug, PartialEq, Eq, Structural)]
pub struct Arrival {
    pub position: Vector2,
    /// Whether any client still wants the chunk.
    pub watched: bool,
    /// Whether the connection of the player that asked is closed.
    pub closed: bool,
}

/// What is done with a chunk that has arrived.
#[derive(Clone, Copy, Debug, PartialEq, Eq, Structural)]
pub enum StreamAction {
    /// Send the chunk to the player.
    Deliver(Vector2),
    /// Nobody wants the chunk any more: release it from the cache, and
    /// send nothing.
    Discard(Vector2),
    /// The connection is closed: send nothing, and take no more chunks.
    Stop,
}

/// The terrain on its way to one player.
#[derive(Clone, Debug, PartialEq, Eq)]
pub struct ChunkStream {
    pub player: u128,
    pub request: ChunkRequest,
    /// Set once the connection was found closed.
    pub stopped: bool,
}

/// Whether each chunk is at least as far from `center` as the one before.
pub open spec fn nearest_first(chunks: Seq<Vector2>, center: Vector2) -> bool {
    forall|i: int, j: int|
        0 <= i <= j < chunks.len() ==> chunks[i].spec_distance_squared(center)
            <= chunks[j].spec_distance_squared(center)
}

/// `sorted` with `chunk` put behind the last chunk that is no further from
/// `center` than it.
pub open spec fn insert_by_distance(sorted: Seq<Vector2>, chunk: Vector2, center: Vector2) -> Seq<
    Vector2,
>
    decreases sorted.len(),
{
    if sorted.len() == 0 {
        seq![chunk]
    } else if sorted.last().spec_distance_squared(center) <= chunk.spec_distance_squared(center) {
        sorted.push(chunk)
    } else {
        insert_by_distance(sorted.drop_last(), chunk, center).push(sorted.last())
    }
}

/// The chunks in the order in which they are asked for: the nearest to
/// `center` first, and chunks equally far in the order they came in.
pub open spec fn nearest_first_order(chunks: Seq<Vector2>, center: Vector2) -> Seq<Vector2>
    decreases chunks.len(),
{
    if chunks.len() == 0 {
        Seq::empty()
    } else {
        insert_by_distance(nearest_first_order(chunks.drop_last(), center), chunks.last(), center)
    }
}

/// The test that a chunk meets whose squared distance from `center` is
/// `distance`.
pub open spec fn is_at_distance(center: Vector2, distance: int) -> spec_fn(Vector2) -> bool {
    |chunk: Vector2| chunk.spec_distance_squared(center) == distance
}

/// Putting a chunk in adds that chunk and no other.
pub proof fn lemma_insert_adds(sorted: Seq<Vector2>, chunk: Vector2, center: Vector2)
    ensures
        insert_by_distance(sorted, chunk, center).len() == sorted.len() + 1,
        insert_by_distance(sorted, chunk, center).to_multiset() == sorted.to_multiset().insert(
            chunk,
        ),
    decreases sorted.len(),
{
    broadcast use vstd::seq_lib::group_to_multiset_ensures;

    if sorted.len() == 0 {
        assert(seq![chunk] =~= Seq::<Vector2>::empty().push(chunk));
    } else if sorted.last().spec_distance_squared(center) <= chunk.spec_distance_squared(center) {
    } else {
        let front = sorted.drop_last();
        lemma_insert_adds(front, chunk, center);
        assert(sorted =~= front.push(sorted.last()));
        assert(insert_by_distance(front, chunk, center).push(sorted.last()).to_multiset()
            =~= sorted.to_multiset().insert(chunk));
    }
}

/// Putting a chunk into chunks that are nearest first leaves them nearest
/// first.
pub proof fn lemma_insert_keeps_order(sorted: Seq<Vector2>, chunk: Vector2, center: Vector2)
    requires
        nearest_first(sorted, center),
    ensures
        nearest_first(insert_by_distance(sorted, chunk, center), center),
        forall|c: Vector2| #[trigger]
            insert_by_distance(sorted, chunk, center).contains(c) ==> c == chunk
                || sorted.contains(c),
    decreases sorted.len(),
{
    let inserted = insert_by_distance(sorted, chunk, center);
    if sorted.len() == 0 {
    } else if sorted.last().spec_distance_squared(center) <= chunk.spec_distance_squared(center) {
        assert forall|c: Vector2| #[trigger] inserted.contains(c) implies c == chunk
            || sorted.contains(c) by {
            let i = choose|i: int| 0 <= i < inserted.len() && inserted[i] == c;
            if i < sorted.len() {
                assert(sorted[i] == c);
            }
        }
    } else {
        let front = sorted.drop_last();
        let last = sorted.last();
        assert(nearest_first(front, center));
        lemma_insert_keeps_order(front, chunk, center);
        let inner = insert_by_distance(front, chunk, center);
        assert forall|i: int, j: int| 0 <= i <= j < inserted.len() implies inserted[i].spec_distance_squared(
            center,
        ) <= inserted[j].spec_distance_squared(center) by {
            if j == inner.len() && i < j {
                assert(inner.contains(inner[i]));
                if inner[i] != chunk {
                    let k = choose|k: int| 0 <= k < front.len() && front[k] == inner[i];
                    assert(sorted[k] == inner[i]);
                }
            }
        }
        assert forall|c: Vector2| #[trigger] inserted.contains(c) implies c == chunk
            || sorted.contains(c) by {
            let i = choose|i: int| 0 <= i < inserted.len() && inserted[i] == c;
            if i < inner.len() {
                assert(inner.contains(c));
                if c != chunk {
                    let k = choose|k: int| 0 <= k < front.len() && front[k] == c;
                    assert(sorted[k] == c);
                }
            } else {
                assert(sorted[sorted.len() - 1] == c);
            }
        }
    }
}

/// Putting a chunk in puts it behind the chunks that are as far from
/// `center` as it is, and changes nothing among the others.
pub proof fn lemma_insert_is_stable(
    sorted: Seq<Vector2>,
    chunk: Vector2,
    center: Vector2,
    distance: int,
)
    ensures
        insert_by_distance(sorted, chunk, center).filter(is_at_distance(center, distance)) == if chunk.spec_distance_squared(
            center,
        ) == distance {
            sorted.filter(is_at_distance(center, distance)).push(chunk)
        } else {
            sorted.filter(is_at_distance(center, distance))
        },
    decreases sorted.len(),
{
    let keep = is_at_distance(center, distance);
    if sorted.len() == 0 {
        assert(seq![chunk] =~= sorted.push(chunk));
        sorted.lemma_filter_push(chunk, keep);
    } else if sorted.last().spec_distance_squared(center) <= chunk.spec_distance_squared(center) {
        sorted.lemma_filter_push(chunk, keep);
    } else {
        let front = sorted.drop_last();
        let last = sorted.last();
        lemma_insert_is_stable(front, chunk, center, distance);
        insert_by_distance(front, chunk, center).lemma_filter_push(last, keep);
        assert(sorted =~= front.push(last));
        front.lemma_filter_push(last, keep);
    }
}

/// The chunks that are asked for are nearest first.
pub proof fn lemma_order_is_nearest_first(chunks: Seq<Vector2>, center: Vector2)
    ensures
        nearest_first(nearest_first_order(chunks, center), center),
    decreases chunks.len(),
{
    if chunks.len() > 0 {
        lemma_order_is_nearest_first(chunks.drop_last(), center);
        lemma_insert_keeps_order(
            nearest_first_order(chunks.drop_last(), center),
            chunks.last(),
            center,
        );
    }
}

/// The chunks that are asked for are those that came in: none is lost,
/// none is added, none is asked for more often than it came in.
pub proof fn lemma_order_is_permutation(chunks: Seq<Vector2>, center: Vector2)
    ensures
        nearest_first_order(chunks, center).len() == chunks.len(),
        nearest_first_order(chunks, center).to_multiset() == chunks.to_multiset(),
    decreases chunks.len(),
{
    broadcast use vstd::seq_lib::group_to_multiset_ensures;

    if chunks.len() > 0 {
        lemma_order_is_permutation(chunks.drop_last(), center);
        lemma_insert_adds(nearest_first_order(chunks.drop_last(), center), chunks.last(), center);
        assert(chunks =~= chunks.drop_last().push(chunks.last()));
    }
}

/// Chunks that are equally far from `center` are asked for in the order
/// in which they came in.
pub proof fn lemma_order_is_stable(chunks: Seq<Vector2>, center: Vector2, distance: int)
    ensures
        nearest_first_order(chunks, center).filter(is_at_distance(center, distance))
            == chunks.filter(is_at_distance(center, distance)),
    decreases chunks.len(),
{
    let keep = is_at_distance(center, distance);
    if chunks.len() == 0 {
    } else {
        lemma_order_is_stable(chunks.drop_last(), center, distance);
        lemma_insert_is_stable(
            nearest_first_order(chunks.drop_last(), center),
            chunks.last(),
            center,
            distance,
        );
        assert(chunks =~= chunks.drop_last().push(chunks.last()));
        chunks.drop_last().lemma_filter_push(chunks.last(), keep);
    }
}

/// Two rows of chunks made one: the last chunk is the one that is further
/// from `center` of the two last chunks, and that of `later` where both
/// are equally far.
pub open spec fn merge_by_distance(earlier: Seq<Vector2>, later: Seq<Vector2>, center: Vector2) -> Seq<
    Vector2,
>
    decreases earlier.len() + later.len(),
{
    if earlier.len() == 0 {
        later
    } else if later.len() == 0 {
        earlier
    } else if earlier.last().spec_distance_squared(center) > later.last().spec_distance_squared(
        center,
    ) {
        merge_by_distance(earlier.drop_last(), later, center).push(earlier.last())
    } else {
        merge_by_distance(earlier, later.drop_last(), center).push(later.last())
    }
}

/// A chunk that came in last may be put into the later row before the two
/// rows are made one, or into the one row afterwards.
proof fn lemma_insert_into_merged(
    earlier: Seq<Vector2>,
    later: Seq<Vector2>,
    chunk: Vector2,
    center: Vector2,
)
    ensures
        insert_by_distance(merge_by_distance(earlier, later, center), chunk, center)
            == merge_by_distance(earlier, insert_by_distance(later, chunk, center), center),
    decreases earlier.len() + later.len(),
{
    let distance = chunk.spec_distance_squared(center);
    let merged = merge_by_distance(earlier, later, center);
    let inserted = insert_by_distance(later, chunk, center);
    lemma_insert_adds(later, chunk, center);
    if earlier.len() == 0 {
    } else if later.len() == 0 {
        assert(inserted =~= seq![chunk]);
        assert(inserted.drop_last() =~= later);
        assert(inserted.last() == chunk);
        if earlier.last().spec_distance_squared(center) > distance {
            lemma_insert_into_merged(earlier.drop_last(), later, chunk, center);
            assert(later =~= Seq::<Vector2>::empty());
            lemma_merge_with_nothing(earlier.drop_last(), center);
            assert(merged == earlier);
            assert(insert_by_distance(earlier, chunk, center) == insert_by_distance(
                earlier.drop_last(),
                chunk,
                center,
            ).push(earlier.last()));
            assert(merge_by_distance(earlier, inserted, center) == merge_by_distance(
                earlier.drop_last(),
                inserted,
                center,
            ).push(earlier.last()));
        }
    } else if later.last().spec_distance_squared(center) <= distance {
        assert(inserted == later.push(chunk));
        assert(inserted.drop_last() =~= later);
        assert(inserted.last() == chunk);
        if earlier.last().spec_distance_squared(center) > distance {
            lemma_insert_into_merged(earlier.drop_last(), later, chunk, center);
            let front = merge_by_distance(earlier.drop_last(), later, center);
            assert(merged == front.push(earlier.last()));
            assert(merged.drop_last() =~= front);
            assert(merged.last() == earlier.last());
        } else {
            lemma_merged_last(earlier, later, center);
        }
    } else {
        let within = insert_by_distance(later.drop_last(), chunk, center);
        lemma_insert_adds(later.drop_last(), chunk, center);
        assert(inserted == within.push(later.last()));
        assert(inserted.drop_last() =~= within);
        assert(inserted.last() == later.last());
        if earlier.last().spec_distance_squared(center) > later.last().spec_distance_squared(
            center,
        ) {
            lemma_insert_into_merged(earlier.drop_last(), later, chunk, center);
            let front = merge_by_distance(earlier.drop_last(), later, center);
            assert(merged == front.push(earlier.last()));
            assert(merged.drop_last() =~= front);
            assert(merged.last() == earlier.last());
        } else {
            lemma_insert_into_merged(earlier, later.drop_last(), chunk, center);
            let front = merge_by_distance(earlier, later.drop_last(), center);
            assert(merged == front.push(later.last()));
            assert(merged.drop_last() =~= front);
            assert(merged.last() == later.last());
        }
    }
}

/// The last chunk of two rows made one is the last chunk of one of them.
proof fn lemma_merged_last(earlier: Seq<Vector2>, later: Seq<Vector2>, center: Vector2)
    requires
        earlier.len() > 0,
        later.len() > 0,
    ensures
        merge_by_distance(earlier, later, center).len() > 0,
        merge_by_distance(earlier, later, center).last() == earlier.last() || merge_by_distance(
            earlier,
            later,
            center,
        ).last() == later.last(),
{
}

/// The chunks of two rows, one behind the other, are asked for in the
/// order that comes of ordering each row and making the two one.
proof fn lemma_order_of_two_rows(earlier: Seq<Vector2>, later: Seq<Vector2>, center: Vector2)
    ensures
        nearest_first_order(earlier + later, center) == merge_by_distance(
            nearest_first_order(earlier, center),
            nearest_first_order(later, center),
            center,
        ),
    decreases later.len(),
{
    if later.len() == 0 {
        assert(earlier + later =~= earlier);
    } else {
        assert((earlier + later).drop_last() =~= earlier + later.drop_last());
        lemma_order_of_two_rows(earlier, later.drop_last(), center);
        lemma_insert_into_merged(
            nearest_first_order(earlier, center),
            nearest_first_order(later.drop_last(), center),
            later.last(),
            center,
        );
    }
}

/// Makes one row of two.
fn merge(earlier: &Vec<Vector2>, later: &Vec<Vector2>, center: Vector2) -> (merged: Vec<Vector2>)
    ensures
        merged@ == merge_by_distance(earlier@, later@, center),
{
    // The row is filled from its end, and turned round afterwards.
    let mut backwards: Vec<Vector2> = Vec::new();
    let mut i: usize = earlier.len();
    let mut j: usize = later.len();
    assert(earlier@.take(i as int) =~= earlier@);
    assert(later@.take(j as int) =~= later@);
    assert(backwards@.reverse() =~= Seq::<Vector2>::empty());
    while i > 0 || j > 0
        invariant
            i <= earlier.len(),
            j <= later.len(),
            merge_by_distance(earlier@, later@, center) == merge_by_distance(
                earlier@.take(i as int),
                later@.take(j as int),
                center,
            ) + backwards@.reverse(),
        decreases i + j,
    {
        let ghost before = backwards@;
        let ghost head = earlier@.take(i as int);
        let ghost tail = later@.take(j as int);
        let from_earlier = if i == 0 {
            false
        } else if j == 0 {
            true
        } else {
            earlier[i - 1].distance_squared(center) > later[j - 1].distance_squared(center)
        };
        if from_earlier {
            backwards.push(earlier[i - 1]);
            i = i - 1;
            proof {
                assert(head.drop_last() =~= earlier@.take(i as int));
                assert(merge_by_distance(head, tail, center) =~= merge_by_distance(
                    head.drop_last(),
                    tail,
                    center,
                ).push(head.last())) by {
                    if tail.len() == 0 {
                        lemma_merge_with_nothing(head.drop_last(), center);
                        assert(head =~= head.drop_last().push(head.last()));
                    }
                }
                assert(backwards@.reverse() =~= seq![head.last()] + before.reverse());
            }
        } else {
            backwards.push(later[j - 1]);
            j = j - 1;
            proof {
                assert(tail.drop_last() =~= later@.take(j as int));
                assert(merge_by_distance(head, tail, center) =~= merge_by_distance(
                    head,
                    tail.drop_last(),
                    center,
                ).push(tail.last())) by {
                    if head.len() == 0 {
                        assert(tail =~= tail.drop_last().push(tail.last()));
                    }
                }
                assert(backwards@.reverse() =~= seq![tail.last()] + before.reverse());
            }
        }
    }
    let mut merged: Vec<Vector2> = Vec::with_capacity(backwards.len());
    let mut k: usize = backwards.len();
    while k > 0
        invariant
            k <= backwards.len(),
            merged@ == backwards@.reverse().take(backwards.len() - k),
        decreases k,
    {
        k = k - 1;
        merged.push(backwards[k]);
        assert(merged@ =~= backwards@.reverse().take(backwards.len() - k));
    }
    assert(merged@ =~= backwards@.reverse());
    merged
}

/// A row that is made one with an empty row stays as it is.
proof fn lemma_merge_with_nothing(row: Seq<Vector2>, center: Vector2)
    ensures
        merge_by_distance(row, Seq::empty(), center) == row,
{
}

/// Puts the chunks from `from` up to `to` in the order in which they are
/// asked for.
fn sort_range(chunks: &Vec<Vector2>, from: usize, to: usize, center: Vector2) -> (sorted: Vec<
    Vector2,
>)
    requires
        from <= to <= chunks.len(),
    ensures
        sorted@ == nearest_first_order(chunks@.subrange(from as int, to as int), center),
    decreases to - from,
{
    let ghost range = chunks@.subrange(from as int, to as int);
    if to - from == 0 {
        Vec::new()
    } else if to - from == 1 {
        let mut sorted: Vec<Vector2> = Vec::new();
        sorted.push(chunks[from]);
        proof {
            assert(range.drop_last() =~= Seq::<Vector2>::empty());
            assert(nearest_first_order(range.drop_last(), center) =~= Seq::<Vector2>::empty());
            assert(sorted@ =~= seq![range.last()]);
        }
        sorted
    } else {
        let middle = from + (to - from) / 2;
        let earlier = sort_range(chunks, from, middle, center);
        let later = sort_range(chunks, middle, to, center);
        proof {
            assert(range =~= chunks@.subrange(from as int, middle as int) + chunks@.subrange(
                middle as int,
                to as int,
            ));
            lemma_order_of_two_rows(
                chunks@.subrange(from as int, middle as int),
                chunks@.subrange(middle as int, to as int),
                center,
            );
        }
        merge(&earlier, &later, center)
    }
}

/// Puts the chunks in the order in which they are asked for: the nearest
/// to `center` first, and chunks equally far in the order they came in.
pub fn sort_by_distance(chunks: &Vec<Vector2>, center: Vector2) -> (sorted: Vec<Vector2>)
    ensures
        sorted@ == nearest_first_order(chunks@, center),
        nearest_first(sorted@, center),
        sorted@.to_multiset() == chunks@.to_multiset(),
{
    proof {
        lemma_order_is_permutation(chunks@, center);
        lemma_order_is_nearest_first(chunks@, center);
        assert(chunks@.subrange(0, chunks.len() as int) =~= chunks@);
    }
    sort_range(chunks, 0, chunks.len(), center)
}

/// What is done with an arriving chunk, and whether the stream is stopped
/// after it.
pub open spec fn decide(stopped: bool, arrival: Arrival) -> (bool, StreamAction) {
    if !arrival.watched {
        (stopped, StreamAction::Discard(arrival.position))
    } else if stopped || arrival.closed {
        (true, StreamAction::Stop)
    } else {
        (false, StreamAction::Deliver(arrival.position))
    }
}

/// Whether the stream is stopped after the chunks of `arrivals`.
pub open spec fn stopped_after(stopped: bool, arrivals: Seq<Arrival>) -> bool
    decreases arrivals.len(),
{
    if arrivals.len() == 0 {
        stopped
    } else {
        decide(stopped_after(stopped, arrivals.drop_last()), arrivals.last()).0
    }
}

/// What is done with each chunk of `arrivals`, in turn.
pub open spec fn actions(stopped: bool, arrivals: Seq<Arrival>) -> Seq<StreamAction>
    decreases arrivals.len(),
{
    if arrivals.len() == 0 {
        Seq::empty()
    } else {
        actions(stopped, arrivals.drop_last()).push(
            decide(stopped_after(stopped, arrivals.drop_last()), arrivals.last()).1,
        )
    }
}

/// The chunks that reach the player, in turn.
pub open spec fn delivered(stopped: bool, arrivals: Seq<Arrival>) -> Seq<Vector2>
    decreases arrivals.len(),
{
    if arrivals.len() == 0 {
        Seq::empty()
    } else {
        match decide(stopped_after(stopped, arrivals.drop_last()), arrivals.last()).1 {
            StreamAction::Deliver(position) => delivered(stopped, arrivals.drop_last()).push(
                position,
            ),
            _ => delivered(stopped, arrivals.drop_last()),
        }
    }
}

/// Where each of `arrivals` lies.
pub open spec fn positions(arrivals: Seq<Arrival>) -> Seq<Vector2> {
    arrivals.map_values(|arrival: Arrival| arrival.position)
}

/// One thing is done with each chunk that arrives. A chunk that nobody
/// wants any more is never delivered: it is discarded, once for each time
/// it arrives, whatever arrived before it and whether the stream runs or
/// has stopped.
pub proof fn lemma_unwatched_is_discarded(stopped: bool, arrivals: Seq<Arrival>, i: int)
    requires
        0 <= i < arrivals.len(),
        !arrivals[i].watched,
    ensures
        actions(stopped, arrivals).len() == arrivals.len(),
        actions(stopped, arrivals)[i] == StreamAction::Discard(arrivals[i].position),
    decreases arrivals.len(),
{
    lemma_actions_len(stopped, arrivals);
    if i < arrivals.len() - 1 {
        lemma_actions_len(stopped, arrivals.drop_last());
        lemma_unwatched_is_discarded(stopped, arrivals.drop_last(), i);
    }
}

/// A chunk is delivered only if somebody wants it and the connection is
/// open when it arrives.
pub proof fn lemma_delivered_was_wanted(stopped: bool, arrivals: Seq<Arrival>, i: int)
    requires
        0 <= i < arrivals.len(),
        actions(stopped, arrivals)[i] is Deliver,
    ensures
        arrivals[i].watched,
        !arrivals[i].closed,
        actions(stopped, arrivals)[i] == StreamAction::Deliver(arrivals[i].position),
    decreases arrivals.len(),
{
    lemma_actions_len(stopped, arrivals);
    if i < arrivals.len() - 1 {
        lemma_actions_len(stopped, arrivals.drop_last());
        lemma_delivered_was_wanted(stopped, arrivals.drop_last(), i);
    }
}

/// One thing is done with each chunk that arrives.
pub proof fn lemma_actions_len(stopped: bool, arrivals: Seq<Arrival>)
    ensures
        actions(stopped, arrivals).len() == arrivals.len(),
    decreases arrivals.len(),
{
    if arrivals.len() > 0 {
        lemma_actions_len(stopped, arrivals.drop_last());
    }
}

/// Once the connection was found closed, nothing is delivered.
pub proof fn lemma_nothing_after_stop(arrivals: Seq<Arrival>)
    ensures
        stopped_after(true, arrivals),
        delivered(true, arrivals) == Seq::<Vector2>::empty(),
    decreases arrivals.len(),
{
    if arrivals.len() > 0 {
        lemma_nothing_after_stop(arrivals.drop_last());
    }
}

/// Every chunk that is delivered has arrived, and no later than the
/// chunks that are delivered after it.
proof fn lemma_delivered_from(stopped: bool, arrivals: Seq<Arrival>, center: Vector2)
    requires
        nearest_first(positions(arrivals), center),
    ensures
        nearest_first(delivered(stopped, arrivals), center),
        forall|chunk: Vector2| #[trigger]
            delivered(stopped, arrivals).contains(chunk) ==> positions(arrivals).contains(chunk),
    decreases arrivals.len(),
{
    let out = delivered(stopped, arrivals);
    if arrivals.len() > 0 {
        let front = arrivals.drop_last();
        let last = arrivals.last();
        assert(positions(front) =~= positions(arrivals).drop_last());
        assert(nearest_first(positions(front), center)) by {
            assert forall|i: int, j: int| 0 <= i <= j < positions(front).len() implies positions(
                front,
            )[i].spec_distance_squared(center) <= positions(front)[j].spec_distance_squared(
                center,
            ) by {
                assert(positions(arrivals)[i] == positions(front)[i]);
                assert(positions(arrivals)[j] == positions(front)[j]);
            }
        }
        lemma_delivered_from(stopped, front, center);
        let before = delivered(stopped, front);
        assert forall|chunk: Vector2| #[trigger] before.contains(chunk) implies positions(
            arrivals,
        ).contains(chunk) by {
            let k = choose|k: int| 0 <= k < positions(front).len() && positions(front)[k] == chunk;
            assert(positions(arrivals)[k] == chunk);
        }
        assert(positions(arrivals)[arrivals.len() - 1] == last.position);
        match decide(stopped_after(stopped, front), last).1 {
            StreamAction::Deliver(position) => {
                assert(out == before.push(position));
                assert forall|i: int, j: int| 0 <= i <= j < out.len() implies out[i].spec_distance_squared(
                    center,
                ) <= out[j].spec_distance_squared(center) by {
                    if j == before.len() && i < j {
                        assert(before.contains(before[i]));
                        let k = choose|k: int|
                            0 <= k < positions(front).len() && positions(front)[k] == before[i];
                        assert(positions(arrivals)[k] == before[i]);
                    }
                }
                assert forall|chunk: Vector2| #[trigger] out.contains(chunk) implies positions(
                    arrivals,
                ).contains(chunk) by {
                    let k = choose|k: int| 0 <= k < out.len() && out[k] == chunk;
                    if k < before.len() {
                        assert(before.contains(chunk));
                    }
                }
            },
            _ => {},
        }
    }
}

/// Chunks that arrive nearest first are delivered nearest first, whichever
/// of them are discarded on the way and wherever the stream stops.
pub proof fn lemma_delivered_nearest_first(stopped: bool, arrivals: Seq<Arrival>, center: Vector2)
    requires
        nearest_first(positions(arrivals), center),
    ensures
        nearest_first(delivered(stopped, arrivals), center),
{
    lemma_delivered_from(stopped, arrivals, center);
}

/// Chunks that arrive in the order in which they were asked for are
/// delivered nearest first.
pub proof fn lemma_stream_delivers_nearest_first(
    chunks: Seq<Vector2>,
    center: Vector2,
    arrivals: Seq<Arrival>,
)
    requires
        positions(arrivals) == nearest_first_order(chunks, center),
    ensures
        nearest_first(delivered(false, arrivals), center),
{
    lemma_order_is_nearest_first(chunks, center);
    lemma_delivered_from(false, arrivals, center);
}

impl ChunkStream {
    /// Decides what is done with a chunk that has arrived.
    ///
    /// A chunk that nobody wants any more is discarded. Else, where the
    /// connection is closed or was found closed before, the stream is
    /// stopped: this chunk and all that follow are not sent. Else the
    /// chunk is delivered.
    pub fn on_arrival(&mut self, arrival: Arrival) -> (action: StreamAction)
        ensures
            (final(self).stopped, action) == decide(old(self).stopped, arrival),
            final(self).player == old(self).player,
            final(self).request == old(self).request,
    {
        if !arrival.watched {
            StreamAction::Discard(arrival.position)
        } else if self.stopped || arrival.closed {
            self.stopped = true;
            StreamAction::Stop
        } else {
            StreamAction::Deliver(arrival.position)
        }
    }
}

impl World {
    /// Whether terrain can be sent to `player`: it is in the world, and
    /// its connection is there and open.
    pub open spec fn reachable(&self, player: u128) -> bool {
        &&& self.current_players@.contains_key(player)
        &&& self.current_players@[player].client matches Some(client)
        &&& !client.closed
    }

    /// Asks for chunks. Nothing is asked for where the list is empty: no
    /// worker is started for no work. Else as many chunks may wait to be
    /// taken as are asked for.
    pub fn receive_chunks(&self, chunks: Vec<Vector2>) -> (request: Option<ChunkRequest>)
        ensures
            match request {
                Some(request) => {
                    &&& chunks@.len() > 0
                    &&& request.chunks@ == chunks@
                    &&& request.capacity == chunks@.len()
                },
                None => chunks@.len() == 0,
            },
    {
        if chunks.len() == 0 {
            None
        } else {
            let capacity = chunks.len();
            Some(ChunkRequest { chunks, capacity })
        }
    }

    /// Asks for one chunk. What becomes of it when it arrives is decided
    /// by [`World::on_single_arrival`].
    pub fn receive_chunk(&self, chunk_pos: Vector2) -> (request: ChunkRequest)
        ensures
            request.chunks@ == seq![chunk_pos],
            request.capacity == 1,
    {
        let mut chunks: Vec<Vector2> = Vec::new();
        chunks.push(chunk_pos);
        assert(chunks@ =~= seq![chunk_pos]);
        ChunkRequest { chunks, capacity: 1 }
    }

    /// Decides what is done with the one chunk that was asked for, once it
    /// has arrived: as for the chunks of a stream, it is handed on where
    /// somebody watches it, and else it is released from the cache and
    /// withheld from whoever asked.
    pub fn on_single_arrival(&self, chunk_pos: Vector2, watched: bool) -> (action: StreamAction)
        ensures
            action == if watched {
                StreamAction::Deliver(chunk_pos)
            } else {
                StreamAction::Discard(chunk_pos)
            },
            action == decide(false, (Arrival { position: chunk_pos, watched, closed: false })).1,
    {
        if watched {
            StreamAction::Deliver(chunk_pos)
        } else {
            StreamAction::Discard(chunk_pos)
        }
    }

    /// Begins to send chunks to a player: asks for them, the nearest to
    /// `center_chunk` first.
    ///
    /// Nothing begins where the player cannot be reached or there is
    /// nothing to send.
    pub fn spawn_world_chunks(&self, player: u128, chunks: Vec<Vector2>, center_chunk: Vector2) -> (stream:
        Option<ChunkStream>)
        ensures
            match stream {
                Some(stream) => {
                    &&& self.reachable(player)
                    &&& chunks@.len() > 0
                    &&& stream.player == player
                    &&& !stream.stopped
                    &&& stream.request.chunks@ == nearest_first_order(chunks@, center_chunk)
                    &&& nearest_first(stream.request.chunks@, center_chunk)
                    &&& stream.request.chunks@.to_multiset() == chunks@.to_multiset()
                    &&& stream.request.capacity == chunks@.len()
                },
                None => !self.reachable(player) || chunks@.len() == 0,
            },
    {
        broadcast use vstd::std_specs::hash::group_hash_axioms;

        let reachable = match self.current_players.get(&player) {
            Some(record) => match record.client {
                Some(client) => !client.closed,
                None => false,
            },
            None => false,
        };
        if !reachable {
            return None;
        }
        let sorted = sort_by_distance(&chunks, center_chunk);
        proof {
            lemma_order_is_permutation(chunks@, center_chunk);
            lemma_order_is_nearest_first(chunks@, center_chunk);
        }
        match self.receive_chunks(sorted) {
            Some(request) => Some(ChunkStream { player, request, stopped: false }),
            None => None,
        }
    }
}

} // verus!
