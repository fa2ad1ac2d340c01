//! The queue's guarantees, stated and proved over the contracts of the
//! operations in [`crate::queue`] and [`crate::layout`].

use vstd::prelude::*;
use vstd::arithmetic::div_mod::{lemma_small_mod, lemma_sub_mod_noop};

use crate::queue::{Consumer, Producer, SharedRegion};

verus! {

/// A value committed by the producer is observable by the consumer with
/// byte-exact equality, and only then: an item the consumer can reach
/// (its read count has caught up to `k` and a `sync` has shown it a write
/// cursor beyond `k`) was necessarily committed, and the slot `try_read`
/// returns for it still holds exactly the logged item. Until `commit`
/// publishes `k` (`k` not below the region's write count) or until a
/// `sync` observes that commit (`k` not below the consumer's cached write
/// count), `try_read` cannot return item `k` at all, by its contract.
pub proof fn lemma_commit_visibility<T>(region: SharedRegion<T>, consumer: Consumer, k: int)
    requires
        region.inv(),
        consumer.inv(),
        consumer.attached(region),
        consumer.queue.total_cached_read@ <= k,
        k < consumer.queue.total_cached_write@,
    ensures
        k < region.header.total_write@,
        region.buffer@[k % (region.capacity() as int)] == region.log@[k],
{
    assert(region.buffer@[k % (region.capacity() as int)] == region.log@[k]);
}

/// A slot the producer has reserved but not yet committed aliases no
/// published-but-unreleased item: writing into it cannot disturb anything
/// the consumer may still read. This is what lets a caller meet
/// `write_slot`'s precondition for the index `reserve` returned.
pub proof fn lemma_reserved_slot_free<T>(producer: Producer, region: SharedRegion<T>, j: int)
    requires
        producer.inv(),
        region.inv(),
        producer.attached(region),
        region.header.total_write@ <= j < producer.queue.total_cached_write@,
    ensures
        forall|k: int|
            region.header.total_read@ <= k < region.header.total_write@ ==> #[trigger] (k % (
            region.capacity() as int)) != j % (region.capacity() as int),
{
    let cap = region.capacity() as int;
    assert forall|k: int|
        region.header.total_read@ <= k < region.header.total_write@ implies #[trigger] (k % cap)
        != j % cap by {
        if k % cap == j % cap {
            lemma_sub_mod_noop(j, k, cap);
            lemma_small_mod(0, cap as nat);
            assert((j - k) % cap == 0);
            if j - k < cap {
                lemma_small_mod((j - k) as nat, cap as nat);
                assert(false);
            } else {
                assert(k <= j - cap);
                assert(j < producer.queue.total_cached_read@ + cap);
                assert(false);
            }
        }
    }
}

/// One successful `reserve`, as its contract describes it: the producer
/// saw spare capacity and advanced its private write count by one, its
/// view of the read cursor unchanged. (`write_slot` and `commit` do not
/// touch the producer's caches.)
pub open spec fn reserve_success_step(pre: Producer, post: Producer) -> bool {
    &&& pre.queue.total_cached_read@ <= pre.queue.total_cached_write@
    &&& pre.occupancy() < pre.queue.capacity
    &&& post.queue.capacity == pre.queue.capacity
    &&& post.queue.total_cached_write@ == pre.queue.total_cached_write@ + 1
    &&& post.queue.total_cached_read@ == pre.queue.total_cached_read@
}

/// A producer that starts empty fills up in exactly `capacity` successful
/// reserves: along any chain of successful reserves its occupancy counts
/// the steps taken, so no chain exceeds `capacity` steps, and after the
/// `capacity`-th the occupancy equals the capacity — by `reserve`'s
/// contract the next call reports "full".
pub proof fn lemma_capacity_exhaustion(states: Seq<Producer>)
    requires
        states.len() >= 1,
        states[0].occupancy() == 0,
        states[0].queue.total_cached_read@ <= states[0].queue.total_cached_write@,
        forall|i: int|
            0 <= i < states.len() - 1 ==> reserve_success_step(
                #[trigger] states[i],
                states[i + 1],
            ),
    ensures
        states.last().queue.capacity == states[0].queue.capacity,
        states.last().occupancy() == states.len() - 1,
        states.last().queue.total_cached_read@ <= states.last().queue.total_cached_write@,
        states.len() <= states[0].queue.capacity + 1,
    decreases states.len(),
{
    if states.len() > 1 {
        let prefix = states.drop_last();
        assert(prefix[0] == states[0]);
        assert forall|i: int| 0 <= i < prefix.len() - 1 implies reserve_success_step(
            #[trigger] prefix[i],
            prefix[i + 1],
        ) by {
            assert(prefix[i] == states[i]);
            assert(prefix[i + 1] == states[i + 1]);
        }
        lemma_capacity_exhaustion(prefix);
        assert(prefix.last() == states[states.len() - 2]);
        assert(reserve_success_step(states[states.len() - 2], states.last()));
    }
}

/// Once the consumer has finalized at least one slot beyond what a full
/// producer knew, the producer's `sync` (which, by its contract, adopts
/// the published read count) leaves it with spare capacity again: the
/// next `reserve` succeeds.
pub proof fn lemma_reserve_after_free<T>(producer: Producer, region: SharedRegion<T>)
    requires
        producer.inv(),
        region.inv(),
        producer.attached(region),
        producer.occupancy() == producer.queue.capacity,
        region.header.total_read@ > producer.queue.total_cached_read@,
    ensures
        producer.queue.total_cached_write@ - region.header.total_read@
            < producer.queue.capacity,
{
}

/// `try_read` on a newly created queue returns "empty": a consumer
/// attached to a region with no commits has nothing available, whatever
/// syncs it has performed.
pub proof fn lemma_fresh_queue_empty<T>(consumer: Consumer, region: SharedRegion<T>)
    requires
        consumer.inv(),
        region.inv(),
        consumer.attached(region),
        region.header.total_write@ == 0,
    ensures
        consumer.available() == 0,
{
}

} // verus!


