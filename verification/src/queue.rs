//! A bounded single-producer / single-consumer frame queue.
//!
//! The non-blocking bounded buffer underneath is rtrb's lock-free SPSC ring
//! buffer; the two handle types here wrap its ends in polling loops with an
//! explicit attempt budget.  A rejected push hands the very same item back,
//! so a caller that keeps retrying (see the blocking loops layered on top
//! outside this crate) never drops, duplicates or reorders an item.
//!
//! Each handle's contract is stated over the history of items that went
//! through it, oldest first.  When the two ends live on different threads,
//! only per-handle facts can be stated; rtrb then guarantees that the
//! consumer's history is always a prefix of the producer's.  When one
//! caller holds both ends — the borrow checker makes any other use of the
//! paired operations impossible — that FIFO guarantee becomes a contract:
//! `push_now` succeeds exactly when the queue is not full, and `next_now`
//! returns exactly the oldest item not yet popped.  The FIFO and
//! no-loss-under-pressure laws at the end of this module are proved from
//! those contracts.

use vstd::pervasive::unreached;
use vstd::prelude::*;

use crate::frame::FrameResult;

verus! {

#[verifier::external_type_specification]
#[verifier::external_body]
#[verifier::reject_recursive_types(T)]
pub struct ExProducer<T>(rtrb::Producer<T>);

#[verifier::external_type_specification]
#[verifier::external_body]
#[verifier::reject_recursive_types(T)]
pub struct ExConsumer<T>(rtrb::Consumer<T>);

/// The items pushed so far through a producer handle, oldest first.
pub uninterp spec fn pushed_items(p: rtrb::Producer<FrameResult>) -> Seq<FrameResult>;

/// The items popped so far through a consumer handle, oldest first.
pub uninterp spec fn popped_items(c: rtrb::Consumer<FrameResult>) -> Seq<FrameResult>;

/// The identity of the ring buffer behind a producer handle.
pub uninterp spec fn producer_buffer(p: rtrb::Producer<FrameResult>) -> int;

/// The identity of the ring buffer behind a consumer handle.
pub uninterp spec fn consumer_buffer(c: rtrb::Consumer<FrameResult>) -> int;

/// The fixed capacity of the ring buffer behind a producer handle.
pub uninterp spec fn producer_capacity(p: rtrb::Producer<FrameResult>) -> int;

/// Relies on rtrb::RingBuffer::new: creates a connected producer/consumer
/// pair over one fresh bounded buffer of exactly the given capacity, with
/// nothing pushed or popped yet.
#[verifier::external_body]
fn ring_buffer_new(capacity: usize) -> (r: (rtrb::Producer<FrameResult>, rtrb::Consumer<FrameResult>))
    ensures
        pushed_items(r.0) == Seq::<FrameResult>::empty(),
        popped_items(r.1) == Seq::<FrameResult>::empty(),
        producer_buffer(r.0) == consumer_buffer(r.1),
        producer_capacity(r.0) == capacity,
{
    rtrb::RingBuffer::new(capacity)
}

/// Relies on rtrb::Producer::push: on success the value is moved into the
/// queue; when the buffer is currently full the value is handed back
/// unchanged and the queue is untouched.  Fullness needs as many items in
/// flight as the capacity, and the items in flight never exceed the items
/// ever pushed, so while fewer than `capacity` items were pushed through
/// this handle the push cannot fail, whatever the consumer does; beyond
/// that, fullness depends on a consumer this handle knows nothing about,
/// so no more can be said here.  The handle's buffer and capacity never
/// change.
#[verifier::external_body]
fn raw_push(p: &mut rtrb::Producer<FrameResult>, item: FrameResult) -> (r: Option<FrameResult>)
    ensures
        producer_buffer(*final(p)) == producer_buffer(*old(p)),
        producer_capacity(*final(p)) == producer_capacity(*old(p)),
        pushed_items(*old(p)).len() < producer_capacity(*old(p)) ==> r is None,
        match r {
            None => pushed_items(*final(p)) == pushed_items(*old(p)).push(item),
            Some(back) => back == item && pushed_items(*final(p)) == pushed_items(*old(p)),
        },
{
    match p.push(item) {
        Ok(()) => None,
        Err(rtrb::PushError::Full(back)) => Some(back),
    }
}

/// Relies on rtrb::Consumer::pop: moves the oldest element still in the
/// queue out of it, or reports that the buffer is currently empty and
/// leaves it untouched.  Which element is oldest depends on a producer
/// this handle knows nothing about, so no more can be said here; the
/// handle's buffer never changes.
#[verifier::external_body]
fn raw_pop(c: &mut rtrb::Consumer<FrameResult>) -> (r: Option<FrameResult>)
    ensures
        consumer_buffer(*final(c)) == consumer_buffer(*old(c)),
        match r {
            Some(item) => popped_items(*final(c)) == popped_items(*old(c)).push(item),
            None => popped_items(*final(c)) == popped_items(*old(c)),
        },
{
    c.pop().ok()
}

/// Relies on rtrb::Producer::push, called while the same caller also holds
/// a reference to the consumer end of the same buffer, so that nothing can
/// pop concurrently: the push succeeds exactly when fewer items are in
/// flight than the capacity, and a full buffer hands the value back
/// unchanged.
#[verifier::external_body]
fn raw_push_paired(
    p: &mut rtrb::Producer<FrameResult>,
    c: &rtrb::Consumer<FrameResult>,
    item: FrameResult,
) -> (r: Option<FrameResult>)
    requires
        producer_buffer(*old(p)) == consumer_buffer(*c),
    ensures
        producer_buffer(*final(p)) == producer_buffer(*old(p)),
        producer_capacity(*final(p)) == producer_capacity(*old(p)),
        match r {
            None => {
                &&& pushed_items(*old(p)).len() - popped_items(*c).len()
                    < producer_capacity(*old(p))
                &&& pushed_items(*final(p)) == pushed_items(*old(p)).push(item)
            },
            Some(back) => {
                &&& pushed_items(*old(p)).len() - popped_items(*c).len()
                    >= producer_capacity(*old(p))
                &&& back == item
                &&& pushed_items(*final(p)) == pushed_items(*old(p))
            },
        },
{
    let _ = c;
    match p.push(item) {
        Ok(()) => None,
        Err(rtrb::PushError::Full(back)) => Some(back),
    }
}

/// Relies on rtrb::Consumer::pop, called while the same caller also holds
/// a reference to the producer end of the same buffer, so that nothing can
/// push concurrently: the pop returns exactly the oldest item not yet
/// popped — the pushed item at the index of how many were popped so far —
/// and fails exactly when every pushed item was already popped.
#[verifier::external_body]
fn raw_pop_paired(
    p: &rtrb::Producer<FrameResult>,
    c: &mut rtrb::Consumer<FrameResult>,
) -> (r: Option<FrameResult>)
    requires
        producer_buffer(*p) == consumer_buffer(*old(c)),
        popped_items(*old(c)).len() <= pushed_items(*p).len(),
    ensures
        consumer_buffer(*final(c)) == consumer_buffer(*old(c)),
        match r {
            Some(item) => {
                &&& popped_items(*old(c)).len() < pushed_items(*p).len()
                &&& item == pushed_items(*p)[popped_items(*old(c)).len() as int]
                &&& popped_items(*final(c)) == popped_items(*old(c)).push(item)
            },
            None => {
                &&& popped_items(*old(c)).len() == pushed_items(*p).len()
                &&& popped_items(*final(c)) == popped_items(*old(c))
            },
        },
{
    let _ = p;
    c.pop().ok()
}

/// Relies on std::hint::spin_loop: a processor hint emitted between two
/// polls of the buffer; it has no observable effect.
#[verifier::external_body]
fn pause() {
    std::hint::spin_loop();
}

/// The consumer end of the queue: a pull-based source of `FrameResult`
/// values in the exact order the producer pushed them.
pub struct DecoderInputQueue {
    receiver: rtrb::Consumer<FrameResult>,
}

/// The producer end of the queue.
pub struct DecoderInputQueueProducer {
    sender: rtrb::Producer<FrameResult>,
}

impl DecoderInputQueue {
    /// The items this handle has taken off the queue so far, oldest first.
    pub closed spec fn taken(&self) -> Seq<FrameResult> {
        popped_items(self.receiver)
    }

    /// The identity of the buffer this handle reads from.
    pub closed spec fn id(&self) -> int {
        consumer_buffer(self.receiver)
    }

    /// Creates a connected queue of the given fixed, positive capacity:
    /// at most `capacity` items are ever in flight at once.
    pub fn new(capacity: usize) -> (r: (DecoderInputQueue, DecoderInputQueueProducer))
        requires
            capacity >= 1,
        ensures
            r.0.taken() == Seq::<FrameResult>::empty(),
            r.1.sent() == Seq::<FrameResult>::empty(),
            r.1.connected_to(&r.0),
            r.1.capacity() == capacity,
    {
        let (producer, consumer) = ring_buffer_new(capacity);
        (
            DecoderInputQueue { receiver: consumer },
            DecoderInputQueueProducer { sender: producer },
        )
    }

    /// Polling pop: polls the buffer, pausing and retrying up to `attempts`
    /// times, and returns the first item that becomes available — exactly
    /// one item, never a batch.  `None` says the buffer stayed empty for
    /// the whole budget and nothing was taken; an empty buffer is never an
    /// error, and a caller wanting the blocking contract simply polls again
    /// after a pause.  The queue itself never signals "no more items":
    /// termination of consumption is the caller's decision.
    pub fn next(&mut self, attempts: u64) -> (r: Option<FrameResult>)
        ensures
            final(self).id() == old(self).id(),
            match r {
                Some(item) => final(self).taken() == old(self).taken().push(item),
                None => final(self).taken() == old(self).taken(),
            },
    {
        let mut left = attempts;
        loop
            invariant
                self.taken() == old(self).taken(),
                self.id() == old(self).id(),
            decreases left,
        {
            match raw_pop(&mut self.receiver) {
                Some(item) => {
                    return Some(item);
                }
                None => {
                    if left == 0 {
                        return None;
                    }
                    left = left - 1;
                    pause();
                }
            }
        }
    }

    /// Single pop with the producer end at hand, so that the result is
    /// exact: the oldest item not yet popped comes out, and `None` comes
    /// exactly when this handle has already popped everything the producer
    /// pushed.
    pub fn next_now(&mut self, producer: &DecoderInputQueueProducer) -> (r: Option<FrameResult>)
        requires
            producer.connected_to(old(self)),
            old(self).taken().len() <= producer.sent().len(),
        ensures
            final(self).id() == old(self).id(),
            match r {
                Some(item) => {
                    &&& old(self).taken().len() < producer.sent().len()
                    &&& item == producer.sent()[old(self).taken().len() as int]
                    &&& final(self).taken() == old(self).taken().push(item)
                },
                None => {
                    &&& old(self).taken().len() == producer.sent().len()
                    &&& final(self).taken() == old(self).taken()
                },
            },
    {
        raw_pop_paired(&producer.sender, &mut self.receiver)
    }
}

impl DecoderInputQueueProducer {
    /// The items this handle has pushed into the queue so far, oldest first.
    pub closed spec fn sent(&self) -> Seq<FrameResult> {
        pushed_items(self.sender)
    }

    /// The identity of the buffer this handle writes to.
    pub closed spec fn id(&self) -> int {
        producer_buffer(self.sender)
    }

    /// The fixed capacity of the buffer this handle writes to.
    pub closed spec fn capacity(&self) -> int {
        producer_capacity(self.sender)
    }

    /// Whether this producer and that consumer are the two ends of one
    /// queue.
    pub open spec fn connected_to(&self, queue: &DecoderInputQueue) -> bool {
        self.id() == queue.id()
    }

    /// Polling push: polls the buffer, pausing and retrying up to
    /// `attempts` times, and moves `frame` into the queue as soon as a
    /// slot is free.  `None` says the frame was delivered, and is owed
    /// outright while fewer items than the capacity were ever pushed, the
    /// queue then having room whatever the consumer does; `Some` hands
    /// back the very same frame after the buffer stayed full for the whole
    /// budget, so no item is ever discarded, duplicated or reordered, and
    /// a full buffer is never an error — a caller wanting the blocking
    /// contract pushes again after a pause with the returned frame.
    pub fn push(&mut self, frame: FrameResult, attempts: u64) -> (r: Option<FrameResult>)
        ensures
            final(self).id() == old(self).id(),
            final(self).capacity() == old(self).capacity(),
            old(self).sent().len() < old(self).capacity() ==> r is None,
            match r {
                None => final(self).sent() == old(self).sent().push(frame),
                Some(back) => back == frame && final(self).sent() == old(self).sent(),
            },
    {
        let mut pending = frame;
        let mut left = attempts;
        loop
            invariant
                self.sent() == old(self).sent(),
                self.id() == old(self).id(),
                self.capacity() == old(self).capacity(),
                pending == frame,
            decreases left,
        {
            match raw_push(&mut self.sender, pending) {
                None => {
                    return None;
                }
                Some(back) => {
                    if left == 0 {
                        return Some(back);
                    }
                    pending = back;
                    left = left - 1;
                    pause();
                }
            }
        }
    }

    /// Single push with the consumer end at hand, so that the outcome is
    /// exact: the push completes exactly when fewer items are in flight
    /// than the capacity; a full queue hands the very same frame back and
    /// accepts nothing until a pop has freed a slot.
    pub fn push_now(&mut self, queue: &DecoderInputQueue, frame: FrameResult) -> (r: Option<
        FrameResult,
    >)
        requires
            old(self).connected_to(queue),
        ensures
            final(self).id() == old(self).id(),
            final(self).capacity() == old(self).capacity(),
            match r {
                None => {
                    &&& old(self).sent().len() - queue.taken().len() < old(self).capacity()
                    &&& final(self).sent() == old(self).sent().push(frame)
                },
                Some(back) => {
                    &&& old(self).sent().len() - queue.taken().len() >= old(self).capacity()
                    &&& back == frame
                    &&& final(self).sent() == old(self).sent()
                },
            },
    {
        raw_push_paired(&mut self.sender, &queue.receiver, frame)
    }
}

/// The FIFO law: into a connected, currently drained queue with room for
/// all of them, push the items of `items` in order, then pop that many:
/// the popped sequence equals the pushed sequence — nothing is lost,
/// duplicated or reordered, for any capacity and any number of items that
/// fits.
pub fn fifo_round_trip(
    producer: &mut DecoderInputQueueProducer,
    queue: &mut DecoderInputQueue,
    items: Vec<FrameResult>,
) -> (r: Vec<FrameResult>)
    requires
        old(producer).connected_to(old(queue)),
        old(queue).taken().len() == old(producer).sent().len(),
        items@.len() <= old(producer).capacity(),
    ensures
        r@ == items@,
        final(producer).sent() == old(producer).sent() + items@,
        final(queue).taken() == old(queue).taken() + items@,
{
    let ghost gitems = items@;
    let ghost base_sent = producer.sent();
    let ghost base_taken = queue.taken();
    let n = items.len();
    let mut rest = items;
    proof {
        assert(producer.sent() =~= base_sent + gitems.subrange(0, 0));
        assert(rest@ =~= gitems.subrange(0, n as int));
    }
    while rest.len() != 0
        invariant
            rest@.len() <= n == gitems.len(),
            gitems.len() <= producer.capacity(),
            rest@ == gitems.subrange(n - rest@.len(), n as int),
            producer.sent() == base_sent + gitems.subrange(0, n - rest@.len()),
            producer.connected_to(queue),
            producer.capacity() == old(producer).capacity(),
            queue.taken() == base_taken,
            base_taken.len() == base_sent.len(),
        decreases rest@.len(),
    {
        let ghost pre_sent = producer.sent();
        let ghost pre_rest = rest@;
        let ghost done = n - pre_rest.len();
        let item = rest.remove(0);
        proof {
            assert(item == gitems[done]);
            assert(rest@ =~= gitems.subrange(done + 1, n as int));
        }
        let outcome = producer.push_now(queue, item);
        proof {
            assert(pre_sent.len() - queue.taken().len() < producer.capacity());
            assert(outcome is None);
            assert(producer.sent() =~= base_sent + gitems.subrange(0, done + 1));
        }
    }
    proof {
        assert(gitems.subrange(0, n as int) =~= gitems);
    }
    let mut r: Vec<FrameResult> = Vec::new();
    proof {
        assert(r@ =~= gitems.subrange(0, 0));
        assert(queue.taken() =~= base_taken + r@);
    }
    while r.len() != n
        invariant
            r@.len() <= n == gitems.len(),
            r@ == gitems.subrange(0, r@.len() as int),
            producer.sent() == base_sent + gitems,
            queue.taken() == base_taken + r@,
            producer.connected_to(queue),
            base_taken.len() == base_sent.len(),
        decreases n - r@.len(),
    {
        let ghost j = r@.len() as int;
        let got = queue.next_now(producer);
        let item = match got {
            Some(item) => item,
            None => unreached(),
        };
        proof {
            assert((base_sent + gitems)[base_sent.len() + j] == gitems[j]);
        }
        r.push(item);
        proof {
            assert(r@ =~= gitems.subrange(0, r@.len() as int));
            assert(queue.taken() =~= base_taken + r@);
        }
    }
    proof {
        assert(r@ =~= gitems);
        assert(queue.taken() =~= base_taken + gitems);
    }
    r
}

/// The no-loss-under-pressure law: with the queue full, one more push does
/// not complete and hands the frame back intact; after a single pop has
/// freed a slot — yielding the oldest in-flight item — the very same push
/// completes.  Nothing is lost, duplicated or reordered at any point.
pub fn push_under_pressure(
    producer: &mut DecoderInputQueueProducer,
    queue: &mut DecoderInputQueue,
    frame: FrameResult,
) -> (r: FrameResult)
    requires
        old(producer).connected_to(old(queue)),
        old(producer).sent().len() - old(queue).taken().len() == old(producer).capacity(),
        old(producer).capacity() >= 1,
    ensures
        r == old(producer).sent()[old(queue).taken().len() as int],
        final(queue).taken() == old(queue).taken().push(r),
        final(producer).sent() == old(producer).sent().push(frame),
{
    let rejected = producer.push_now(queue, frame);
    let back = match rejected {
        Some(back) => back,
        None => unreached(),
    };
    let got = queue.next_now(producer);
    let oldest = match got {
        Some(item) => item,
        None => unreached(),
    };
    let retried = producer.push_now(queue, back);
    proof {
        assert(retried is None);
    }
    oldest
}

} // verus!
