//! Lock-free queues between the threads.
//!
//! A queue has one writing end and one reading end, on different threads. What a reader finds
//! depends on when the other thread ran, so what is stated here is what holds whatever the other
//! side does: what comes out is what was put in, in that order; a queue that showed free slots takes
//! that many values; and a queue that showed filled slots gives that many.
use vstd::prelude::*;

verus! {

/// The writing end of an `rtrb` queue.
#[verifier::external_type_specification]
#[verifier::external_body]
#[verifier::reject_recursive_types(T)]
pub struct ExProducer<T>(rtrb::Producer<T>);

/// The reading end of an `rtrb` queue.
#[verifier::external_type_specification]
#[verifier::external_body]
#[verifier::reject_recursive_types(T)]
pub struct ExConsumer<T>(rtrb::Consumer<T>);

/// The first `n` values that go through a queue.
pub open spec fn first_of<T>(through: Map<int, T>, n: nat) -> Seq<T> {
    Seq::new(n, |i: int| through[i])
}

/// Whether values were taken as the room of a queue demands, where `room` slots were known to be free
/// before and `left` are afterwards: as many as were certain to find room did, and one that found
/// none met a queue that a look had just shown full.
pub open spec fn as_room_allows(accepted: Seq<bool>, room: nat, left: nat) -> bool {
    &&& forall|i: int| 0 <= i < accepted.len() && i < room ==> #[trigger] accepted[i]
    &&& accepted.len() <= room ==> left == room - accepted.len()
    &&& accepted.len() > 0 && !accepted.last() ==> left == 0
}

/// One more value is the next one.
pub(crate) proof fn lemma_next<T>(through: Map<int, T>, n: nat)
    ensures
        first_of(through, n + 1) == first_of(through, n).push(through[n as int]),
{
    assert(first_of(through, n + 1) =~= first_of(through, n).push(through[n as int]));
}

// ---------------------------------------------------------------------------------------------
// The sample queue
// ---------------------------------------------------------------------------------------------

/// Everything that goes through the queue behind a writing end, numbered in the order it is put in:
/// the samples that were, and those that will be.
pub uninterp spec fn through_writer(tx: rtrb::Producer<u32>) -> Map<int, u32>;

/// Everything that goes through the queue behind a reading end, numbered in the order it comes out.
pub uninterp spec fn through_reader(rx: rtrb::Consumer<u32>) -> Map<int, u32>;

/// How many samples were put into the queue so far.
pub uninterp spec fn written_count(tx: rtrb::Producer<u32>) -> nat;

/// How many samples were taken out of the queue so far.
pub uninterp spec fn taken_count(rx: rtrb::Consumer<u32>) -> nat;

/// How many slots the writing end has seen free and not used since. The reading thread can only
/// free more of them.
pub uninterp spec fn seen_free(tx: rtrb::Producer<u32>) -> nat;

/// How many slots the reading end has seen filled and not emptied since. The writing thread can
/// only fill more of them.
pub uninterp spec fn seen_filled(rx: rtrb::Consumer<u32>) -> nat;

/// Everything that was put into the queue through this end, oldest first.
pub open spec fn written(tx: rtrb::Producer<u32>) -> Seq<u32> {
    first_of(through_writer(tx), written_count(tx))
}

/// Everything that was taken out of the queue through this end, oldest first.
pub open spec fn taken(rx: rtrb::Consumer<u32>) -> Seq<u32> {
    first_of(through_reader(rx), taken_count(rx))
}

/// `rtrb::RingBuffer::new` for samples: what the one end is given is what the other end gets, every
/// slot is free, and nothing has been written or taken yet. The bound keeps the memory for the slots
/// below what can be allocated.
#[verifier::external_body]
pub(crate) fn sample_ring(capacity: usize) -> (r: (rtrb::Producer<u32>, rtrb::Consumer<u32>))
    requires
        capacity <= 0x1000_0000,
    ensures
        through_writer(r.0) == through_reader(r.1),
        written_count(r.0) == 0,
        taken_count(r.1) == 0,
        seen_free(r.0) == capacity,
{
    rtrb::RingBuffer::new(capacity)
}

/// `rtrb::Producer::slots`: looks how many slots are free at this moment. That many values are
/// certain to be accepted, and a slot that was seen free before is still among them.
#[verifier::external_body]
pub(crate) fn free_slots(tx: &mut rtrb::Producer<u32>) -> (r: usize)
    ensures
        r == seen_free(*final(tx)),
        r >= seen_free(*old(tx)),
        through_writer(*final(tx)) == through_writer(*old(tx)),
        written_count(*final(tx)) == written_count(*old(tx)),
{
    tx.slots()
}

/// `rtrb::Producer::push` for a sample: it is accepted if a slot was seen free, and then it is the
/// next sample of the queue. It is refused only if a look at the queue has just shown no free slot,
/// and then nothing is written.
#[verifier::external_body]
pub(crate) fn push_sample(tx: &mut rtrb::Producer<u32>, value: u32) -> (accepted: bool)
    ensures
        through_writer(*final(tx)) == through_writer(*old(tx)),
        seen_free(*old(tx)) > 0 ==> accepted && seen_free(*final(tx)) == seen_free(*old(tx)) - 1,
        accepted ==> written_count(*final(tx)) == written_count(*old(tx)) + 1 && through_writer(
            *old(tx),
        )[written_count(*old(tx)) as int] == value,
        !accepted ==> written_count(*final(tx)) == written_count(*old(tx)) && seen_free(*final(tx))
            == 0,
{
    tx.push(value).is_ok()
}

/// `rtrb::Consumer::slots`: looks how many slots are filled at this moment. That many values are
/// certain to be there, and a slot that was seen filled before is still among them.
#[verifier::external_body]
pub(crate) fn filled_slots(rx: &mut rtrb::Consumer<u32>) -> (r: usize)
    ensures
        r == seen_filled(*final(rx)),
        r >= seen_filled(*old(rx)),
        through_reader(*final(rx)) == through_reader(*old(rx)),
        taken_count(*final(rx)) == taken_count(*old(rx)),
{
    rx.slots()
}

/// `rtrb::Consumer::pop` for a sample: what comes out is the next sample of the queue. There is one
/// if a slot was seen filled; nothing comes out only if a look at the queue has just shown it empty.
#[verifier::external_body]
pub(crate) fn pop_sample(rx: &mut rtrb::Consumer<u32>) -> (r: Option<u32>)
    ensures
        through_reader(*final(rx)) == through_reader(*old(rx)),
        seen_filled(*old(rx)) > 0 ==> r is Some && seen_filled(*final(rx)) == seen_filled(*old(rx))
            - 1,
        r matches Some(value) ==> taken_count(*final(rx)) == taken_count(*old(rx)) + 1
            && through_reader(*old(rx))[taken_count(*old(rx)) as int] == value,
        r is None ==> taken_count(*final(rx)) == taken_count(*old(rx)) && seen_filled(*final(rx))
            == 0,
{
    rx.pop().ok()
}

} // verus!
