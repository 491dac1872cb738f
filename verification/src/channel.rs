//! The handoff channel: a bounded FIFO of owned payload byte sequences
//! that bridges the synchronous per-core hot path to a consumer outside
//! it.
//!
//! Enqueue is best-effort and never waits: when the queue is full the item
//! is dropped, a drop counter (the diagnostic) is bumped, and processing
//! continues. The consumer observes successfully enqueued items in FIFO
//! order.

use vstd::prelude::*;

use crate::batch::{lemma_views_push, views};

verus! {

/// Capacity of the handoff channel used by the pipeline.
pub const CHANNEL_CAPACITY: usize = 5;

/// A bounded, non-blocking FIFO of owned payloads.
pub struct HandoffChannel {
    queue: Vec<Vec<u8>>,
    capacity: usize,
    dropped: u64,
}

impl View for HandoffChannel {
    type V = Seq<Seq<u8>>;

    /// The queued payloads, oldest first.
    closed spec fn view(&self) -> Seq<Seq<u8>> {
        views(self.queue@)
    }
}

impl HandoffChannel {
    /// The fixed capacity the channel was created with.
    pub closed spec fn capacity_spec(self) -> nat {
        self.capacity as nat
    }

    /// How many enqueue attempts have been rejected because the queue was
    /// full: the channel's drop diagnostic.
    pub closed spec fn dropped_spec(self) -> nat {
        self.dropped as nat
    }

    /// Create an empty channel of capacity `capacity`.
    pub fn new(capacity: usize) -> (r: HandoffChannel)
        ensures
            r@ == Seq::<Seq<u8>>::empty(),
            r.capacity_spec() == capacity,
            r.dropped_spec() == 0,
    {
        HandoffChannel { queue: Vec::new(), capacity, dropped: 0 }
    }

    /// How many payloads are queued.
    pub fn len(&self) -> (r: usize)
        ensures
            r == self@.len(),
    {
        self.queue.len()
    }

    /// The fixed capacity the channel was created with.
    pub fn capacity(&self) -> (r: usize)
        ensures
            r == self.capacity_spec(),
    {
        self.capacity
    }

    /// The drop diagnostic: how many enqueue attempts found the queue
    /// full.
    pub fn dropped_count(&self) -> (r: u64)
        ensures
            r == self.dropped_spec(),
    {
        self.dropped
    }

    /// Non-blocking enqueue: append `item` in FIFO order when a slot is
    /// free; on a full queue give the item back, bump the drop diagnostic,
    /// and change nothing else. Never waits.
    pub fn try_send(&mut self, item: Vec<u8>) -> (r: Result<(), Vec<u8>>)
        requires
            old(self).dropped_spec() < u64::MAX,
        ensures
            final(self).capacity_spec() == old(self).capacity_spec(),
            old(self)@.len() < old(self).capacity_spec() ==> r is Ok && final(self)@ == old(
                self,
            )@.push(item@) && final(self).dropped_spec() == old(self).dropped_spec(),
            old(self)@.len() >= old(self).capacity_spec() ==> (r matches Err(v) && v@ == item@)
                && final(self)@ == old(self)@ && final(self).dropped_spec() == old(
                self,
            ).dropped_spec() + 1,
    {
        if self.queue.len() < self.capacity {
            proof {
                lemma_views_push(self.queue@, item);
            }
            self.queue.push(item);
            Ok(())
        } else {
            self.dropped = self.dropped + 1;
            Err(item)
        }
    }

    /// Dequeue the oldest payload, if any: the consumer side of the FIFO.
    pub fn recv(&mut self) -> (r: Option<Vec<u8>>)
        ensures
            final(self).capacity_spec() == old(self).capacity_spec(),
            final(self).dropped_spec() == old(self).dropped_spec(),
            old(self)@.len() > 0 ==> (r matches Some(v) && v@ == old(self)@[0]) && final(self)@
                == old(self)@.drop_first(),
            old(self)@.len() == 0 ==> r is None && final(self)@ == old(self)@,
    {
        if self.queue.len() > 0 {
            let v = self.queue.remove(0);
            proof {
                assert(views(self.queue@) =~= views(old(self).queue@).drop_first());
            }
            Some(v)
        } else {
            None
        }
    }
}

/// The queue contents after a run of enqueue attempts of `items`, in
/// order, on a queue holding `q` with capacity `cap`, with no dequeue in
/// between: each item is appended while a slot is free and dropped
/// otherwise.
pub open spec fn after_enqueue(q: Seq<Seq<u8>>, cap: nat, items: Seq<Seq<u8>>) -> Seq<Seq<u8>>
    decreases items.len(),
{
    if items.len() == 0 {
        q
    } else {
        let prev = after_enqueue(q, cap, items.drop_last());
        if prev.len() < cap {
            prev.push(items.last())
        } else {
            prev
        }
    }
}

/// How many of those enqueue attempts are rejected.
pub open spec fn enqueue_drops(q: Seq<Seq<u8>>, cap: nat, items: Seq<Seq<u8>>) -> nat
    decreases items.len(),
{
    if items.len() == 0 {
        0
    } else {
        enqueue_drops(q, cap, items.drop_last()) + if after_enqueue(
            q,
            cap,
            items.drop_last(),
        ).len() < cap {
            0nat
        } else {
            1nat
        }
    }
}

/// Enqueuing a run of items without draining fills the free slots with
/// the first items, in FIFO order, and drops every later attempt: on an
/// initially empty queue of capacity 5, the sixth and each subsequent
/// item is rejected and counted, and nothing blocks.
pub proof fn lemma_enqueue_fills_then_drops(q: Seq<Seq<u8>>, cap: nat, items: Seq<Seq<u8>>)
    requires
        q.len() <= cap,
    ensures
        after_enqueue(q, cap, items) == q + items.take(
            if items.len() <= cap - q.len() {
                items.len() as int
            } else {
                cap - q.len()
            },
        ),
        enqueue_drops(q, cap, items) == if items.len() <= cap - q.len() {
            0int
        } else {
            items.len() - (cap - q.len())
        },
    decreases items.len(),
{
    if items.len() == 0 {
        assert(after_enqueue(q, cap, items) =~= q + items.take(0));
    } else {
        lemma_enqueue_fills_then_drops(q, cap, items.drop_last());
        let free = cap - q.len();
        if items.len() <= free {
            assert(items.take(items.len() - 1) == items.drop_last());
            assert(q + items.take(items.len() as int) =~= (q + items.drop_last()).push(
                items.last(),
            ));
        } else {
            assert(items.drop_last().take(
                if items.len() - 1 <= free {
                    items.len() - 1
                } else {
                    free as int
                },
            ) =~= items.take(
                if items.len() - 1 <= free {
                    items.len() - 1
                } else {
                    free as int
                },
            ));
        }
    }
}

} // verus!
