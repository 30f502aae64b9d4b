//! The ring buffer between the Bluetooth side and the audio side. It has one producer and
//! one consumer, which live on different threads and never wait for each other.

use vstd::prelude::*;

use rtrb::{Consumer, Producer, RingBuffer};

verus! {

#[verifier::external_type_specification]
#[verifier::external_body]
#[verifier::reject_recursive_types(T)]
pub struct ExProducer<T>(rtrb::Producer<T>);

#[verifier::external_type_specification]
#[verifier::external_body]
#[verifier::reject_recursive_types(T)]
pub struct ExConsumer<T>(rtrb::Consumer<T>);

/// How many samples the producer's ring holds at most.
pub uninterp spec fn producer_capacity(p: Producer<i16>) -> nat;

/// Every sample that the producer has pushed so far, in order.
pub uninterp spec fn producer_written(p: Producer<i16>) -> Seq<i16>;

/// How many more samples the producer knows to fit: there may be room for more.
pub uninterp spec fn producer_room(p: Producer<i16>) -> nat;

/// Every sample that is ever pushed into the producer's ring, in order.
pub uninterp spec fn producer_tape(p: Producer<i16>) -> Seq<i16>;

/// How many samples the consumer's ring holds at most.
pub uninterp spec fn consumer_capacity(c: Consumer<i16>) -> nat;

/// Every sample that the consumer has popped so far, in order.
pub uninterp spec fn consumer_read(c: Consumer<i16>) -> Seq<i16>;

/// How many samples the consumer knows to be waiting: there may be more.
pub uninterp spec fn consumer_waiting(c: Consumer<i16>) -> nat;

/// Every sample that is ever pushed into the consumer's ring, in order.
pub uninterp spec fn consumer_tape(c: Consumer<i16>) -> Seq<i16>;

/// The two ends belong to the same ring: what is pushed into one comes out of the other.
pub open spec fn same_ring(p: Producer<i16>, c: Consumer<i16>) -> bool {
    &&& producer_capacity(p) == consumer_capacity(c)
    &&& producer_tape(p) == consumer_tape(c)
    &&& producer_written(p).is_prefix_of(producer_tape(p))
    &&& consumer_read(c).is_prefix_of(consumer_tape(c))
}

/// Samples come out of a ring in the order in which they went in, and none is lost,
/// repeated or changed.
pub proof fn law_ring_is_fifo(p: Producer<i16>, c: Consumer<i16>, i: int)
    requires
        same_ring(p, c),
        0 <= i < producer_written(p).len(),
        0 <= i < consumer_read(c).len(),
    ensures
        consumer_read(c)[i] == producer_written(p)[i],
{
    assert(producer_written(p)[i] == producer_tape(p)[i]);
    assert(consumer_read(c)[i] == consumer_tape(c)[i]);
}

/// Calls `rtrb::RingBuffer::new`: the two ends of an empty ring with room for `capacity`
/// samples. More than half the address space cannot be allocated.
#[verifier::external_body]
pub(crate) fn new_ring(capacity: usize) -> (ends: (Producer<i16>, Consumer<i16>))
    requires
        capacity * 2 <= isize::MAX,
    ensures
        same_ring(ends.0, ends.1),
        producer_capacity(ends.0) == capacity,
        producer_written(ends.0) == Seq::<i16>::empty(),
        consumer_read(ends.1) == Seq::<i16>::empty(),
        consumer_waiting(ends.1) == 0,
        producer_room(ends.0) == capacity,
{
    RingBuffer::new(capacity)
}

/// Calls `rtrb::Producer::push_entire_slice`: pushes all of `samples`, or none of them
/// when they do not fit. They fit for sure where the producer knows of the room or where
/// everything ever pushed fits, and never where they exceed the capacity; otherwise it
/// depends on how far the consumer is. Room that is known of stays until it is used.
#[verifier::external_body]
pub(crate) fn push_all(p: &mut Producer<i16>, samples: &[i16]) -> (pushed: bool)
    ensures
        producer_capacity(*final(p)) == producer_capacity(*old(p)),
        producer_tape(*final(p)) == producer_tape(*old(p)),
        producer_written(*final(p)) == (if pushed {
            producer_written(*old(p)) + samples@
        } else {
            producer_written(*old(p))
        }),
        producer_written(*final(p)).is_prefix_of(producer_tape(*final(p))),
        producer_written(*old(p)).len() + samples@.len() <= producer_capacity(*old(p)) ==> pushed,
        samples@.len() > producer_capacity(*old(p)) ==> !pushed,
        samples@.len() == 0 ==> pushed,
        samples@.len() <= producer_room(*old(p)) ==> pushed,
        pushed ==> producer_room(*final(p)) >= producer_room(*old(p)) - samples@.len(),
        !pushed ==> producer_room(*old(p)) <= producer_room(*final(p)) < samples@.len(),
        producer_room(*final(p)) <= producer_capacity(*final(p)),
{
    p.push_entire_slice(samples).is_ok()
}

/// Calls `rtrb::Consumer::pop_entire_slice`: fills all of `out`, or none of it when too few
/// samples are waiting. It succeeds for sure where enough are known to be waiting.
#[verifier::external_body]
pub(crate) fn pop_all(c: &mut Consumer<i16>, out: &mut [i16]) -> (popped: bool)
    ensures
        final(out)@.len() == old(out)@.len(),
        consumer_capacity(*final(c)) == consumer_capacity(*old(c)),
        consumer_tape(*final(c)) == consumer_tape(*old(c)),
        popped ==> consumer_read(*final(c)) == consumer_read(*old(c)) + final(out)@,
        popped ==> consumer_waiting(*final(c)) >= consumer_waiting(*old(c))
            - final(out)@.len(),
        !popped ==> consumer_read(*final(c)) == consumer_read(*old(c)),
        !popped ==> final(out)@ == old(out)@,
        consumer_read(*final(c)).is_prefix_of(consumer_tape(*final(c))),
        old(out)@.len() <= consumer_waiting(*old(c)) ==> popped,
        old(out)@.len() > consumer_capacity(*old(c)) ==> !popped,
{
    c.pop_entire_slice(out).is_ok()
}

/// Calls `rtrb::Consumer::slots`: how many samples are waiting. Once it has looked, the
/// consumer knows of these, and they stay until it pops them itself.
#[verifier::external_body]
pub(crate) fn waiting(c: &mut Consumer<i16>) -> (n: usize)
    ensures
        consumer_capacity(*final(c)) == consumer_capacity(*old(c)),
        consumer_tape(*final(c)) == consumer_tape(*old(c)),
        consumer_read(*final(c)) == consumer_read(*old(c)),
        consumer_waiting(*final(c)) == n,
        n >= consumer_waiting(*old(c)),
        n <= consumer_capacity(*old(c)),
{
    c.slots()
}

} // verus!
