//! A fixed-capacity first-in-first-out queue of fixed-point samples,
//! backed by the `ringbuf` crate's heap ring buffer.
//!
//! Both the producer and the consumer half live in one structure owned by
//! the audio thread, so the queue's behavior is deterministic here. The
//! trusted contracts state ringbuf's first-in-first-out behavior over a
//! sequence model: `try_push` appends when there is room and drops
//! nothing else, `try_pop` removes the oldest sample, `occupied_len`
//! counts what is queued.

use vstd::prelude::*;
use ringbuf::traits::{Consumer, Observer, Producer, Split};
use ringbuf::HeapRb;

verus! {

/// A bounded sample queue; `ring_contents` and `ring_capacity` are its
/// model.
#[verifier::external_body]
pub struct SampleRing {
    producer: ringbuf::HeapProd<i64>,
    consumer: ringbuf::HeapCons<i64>,
}

/// The queued samples, oldest first.
pub uninterp spec fn ring_contents(r: SampleRing) -> Seq<i64>;

/// The fixed capacity the queue was created with.
pub uninterp spec fn ring_capacity(r: SampleRing) -> nat;

impl SampleRing {
    /// Relies on ringbuf's `HeapRb::new` and `Split::split`: a fresh ring
    /// of the given capacity is empty.
    #[verifier::external_body]
    pub fn new(capacity: usize) -> (r: SampleRing)
        requires
            1 <= capacity,
        ensures
            ring_contents(r) == Seq::<i64>::empty(),
            ring_capacity(r) == capacity,
    {
        let rb = HeapRb::<i64>::new(capacity);
        let (producer, consumer) = rb.split();
        SampleRing { producer, consumer }
    }

    /// Relies on ringbuf's `Producer::try_push`: the sample is appended
    /// when the queue is not full, and rejected without any other effect
    /// when it is.
    #[verifier::external_body]
    pub fn try_push(&mut self, value: i64) -> (ok: bool)
        ensures
            ring_capacity(*final(self)) == ring_capacity(*old(self)),
            ring_contents(*old(self)).len() < ring_capacity(*old(self)) ==> ok && ring_contents(
                *final(self)) == ring_contents(*old(self)).push(value),
            ring_contents(*old(self)).len() >= ring_capacity(*old(self)) ==> !ok
                && ring_contents(*final(self)) == ring_contents(*old(self)),
    {
        self.producer.try_push(value).is_ok()
    }

    /// Relies on ringbuf's `Consumer::try_pop`: the oldest sample leaves
    /// the queue, or nothing happens on an empty queue.
    #[verifier::external_body]
    pub fn try_pop(&mut self) -> (r: Option<i64>)
        ensures
            ring_capacity(*final(self)) == ring_capacity(*old(self)),
            ring_contents(*old(self)).len() > 0 ==> r == Some(ring_contents(*old(self))[0])
                && ring_contents(*final(self)) == ring_contents(*old(self)).subrange(
                1,
                ring_contents(*old(self)).len() as int,
            ),
            ring_contents(*old(self)).len() == 0 ==> r is None && ring_contents(*final(self))
                == ring_contents(*old(self)),
    {
        self.consumer.try_pop()
    }

    /// Relies on ringbuf's `Observer::occupied_len` on the consumer half,
    /// which synchronizes with the producer's committed pushes.
    #[verifier::external_body]
    pub fn occupied_len(&self) -> (n: usize)
        ensures
            n == ring_contents(*self).len(),
    {
        self.consumer.occupied_len()
    }
}

} // verus!
