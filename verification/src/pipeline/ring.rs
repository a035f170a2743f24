//! The ring buffers between stages: batches go in at an outlet and come out at an inlet.
use vstd::prelude::*;

use crate::types::{Event, Output};

verus! {

/// The writing half of a ring buffer of the `rtrb` crate.
#[verifier::external_type_specification]
#[verifier::external_body]
#[verifier::reject_recursive_types(T)]
pub struct ExProducer<T>(rtrb::Producer<T>);

/// The reading half of a ring buffer of the `rtrb` crate.
#[verifier::external_type_specification]
#[verifier::external_body]
#[verifier::reject_recursive_types(T)]
pub struct ExConsumer<T>(rtrb::Consumer<T>);

/// The most batches that a ring may be made for. A batch takes the three words of a `Vec`, and no
/// allocation is larger than `isize::MAX` bytes.
pub open spec fn ring_limit() -> int {
    isize::MAX as int / (3 * (usize::BITS / 8))
}

/// The most batches that a ring may be made for.
pub fn largest_ring() -> (r: usize)
    ensures
        r == ring_limit(),
{
    isize::MAX as usize / (3 * (usize::BITS as usize / 8))
}

/// Every batch of events that a writing half has put into its ring, in order.
pub uninterp spec fn event_pushed(producer: rtrb::Producer<Vec<Event>>) -> Seq<Vec<Event>>;

/// The capacity of the ring of events that a writing half belongs to.
pub uninterp spec fn event_limit(producer: rtrb::Producer<Vec<Event>>) -> usize;

/// Every batch of events that a reading half has taken out of its ring, in order.
pub uninterp spec fn event_popped(consumer: rtrb::Consumer<Vec<Event>>) -> Seq<Vec<Event>>;

/// Calls `rtrb::RingBuffer::new` for events: the two halves of a ring of this capacity, into which
/// nothing has been put and out of which nothing has been taken.
#[verifier::external_body]
fn new_event_ring(capacity: usize) -> (r: (rtrb::Producer<Vec<Event>>, rtrb::Consumer<Vec<Event>>))
    requires
        capacity <= ring_limit(),
    ensures
        event_pushed(r.0) == Seq::<Vec<Event>>::empty(),
        event_limit(r.0) == capacity,
        event_popped(r.1) == Seq::<Vec<Event>>::empty(),
{
    rtrb::RingBuffer::new(capacity)
}

/// Calls `rtrb::Producer::push` with a batch of events. A full ring hands the batch back, and is not
/// full as long as fewer batches were ever put into it than it can hold. Whether a ring that was
/// given more is full depends on the reading half.
#[verifier::external_body]
fn push_events(producer: &mut rtrb::Producer<Vec<Event>>, batch: Vec<Event>) -> (r: Result<(), Vec<Event>>)
    ensures
        event_limit(*final(producer)) == event_limit(*old(producer)),
        match r {
            Ok(_) => event_pushed(*final(producer)) == event_pushed(*old(producer)).push(batch),
            Err(back) => {
                &&& back == batch
                &&& event_pushed(*final(producer)) == event_pushed(*old(producer))
                &&& event_pushed(*old(producer)).len() >= event_limit(*old(producer))
            },
        },
{
    match producer.push(batch) {
        Ok(()) => Ok(()),
        Err(rtrb::PushError::Full(back)) => Err(back),
    }
}

/// Calls `rtrb::Consumer::pop` on a ring of events. Which batch comes out, and whether one does,
/// depends on the writing half.
#[verifier::external_body]
fn pop_events(consumer: &mut rtrb::Consumer<Vec<Event>>) -> (r: Option<Vec<Event>>)
    ensures
        event_popped(*final(consumer)) == (match r {
            Some(batch) => event_popped(*old(consumer)).push(batch),
            None => event_popped(*old(consumer)),
        }),
{
    match consumer.pop() {
        Ok(batch) => Some(batch),
        Err(_) => None,
    }
}

/// Calls `rtrb::Producer::slots` on a ring of events: the capacity, less the batches that were put in
/// and not yet taken out. How many were taken out is the reading half's doing.
#[verifier::external_body]
fn event_slots(producer: &rtrb::Producer<Vec<Event>>) -> (r: usize)
    ensures
        r <= event_limit(*producer),
        r + event_pushed(*producer).len() >= event_limit(*producer),
{
    producer.slots()
}

/// Calls `rtrb::RingBuffer::capacity` on a ring of events.
#[verifier::external_body]
fn event_capacity(producer: &rtrb::Producer<Vec<Event>>) -> (r: usize)
    ensures
        r == event_limit(*producer),
{
    producer.buffer().capacity()
}

/// Every batch of outputs that a writing half has put into its ring, in order.
pub uninterp spec fn output_pushed(producer: rtrb::Producer<Vec<Output>>) -> Seq<Vec<Output>>;

/// The capacity of the ring of outputs that a writing half belongs to.
pub uninterp spec fn output_limit(producer: rtrb::Producer<Vec<Output>>) -> usize;

/// Every batch of outputs that a reading half has taken out of its ring, in order.
pub uninterp spec fn output_popped(consumer: rtrb::Consumer<Vec<Output>>) -> Seq<Vec<Output>>;

/// Calls `rtrb::RingBuffer::new` for outputs: the two halves of a ring of this capacity, into which
/// nothing has been put and out of which nothing has been taken.
#[verifier::external_body]
fn new_output_ring(capacity: usize) -> (r: (rtrb::Producer<Vec<Output>>, rtrb::Consumer<Vec<Output>>))
    requires
        capacity <= ring_limit(),
    ensures
        output_pushed(r.0) == Seq::<Vec<Output>>::empty(),
        output_limit(r.0) == capacity,
        output_popped(r.1) == Seq::<Vec<Output>>::empty(),
{
    rtrb::RingBuffer::new(capacity)
}

/// Calls `rtrb::Producer::push` with a batch of outputs. A full ring hands the batch back, and is not
/// full as long as fewer batches were ever put into it than it can hold. Whether a ring that was
/// given more is full depends on the reading half.
#[verifier::external_body]
fn push_outputs(producer: &mut rtrb::Producer<Vec<Output>>, batch: Vec<Output>) -> (r: Result<(), Vec<Output>>)
    ensures
        output_limit(*final(producer)) == output_limit(*old(producer)),
        match r {
            Ok(_) => output_pushed(*final(producer)) == output_pushed(*old(producer)).push(batch),
            Err(back) => {
                &&& back == batch
                &&& output_pushed(*final(producer)) == output_pushed(*old(producer))
                &&& output_pushed(*old(producer)).len() >= output_limit(*old(producer))
            },
        },
{
    match producer.push(batch) {
        Ok(()) => Ok(()),
        Err(rtrb::PushError::Full(back)) => Err(back),
    }
}

/// Calls `rtrb::Consumer::pop` on a ring of outputs. Which batch comes out, and whether one does,
/// depends on the writing half.
#[verifier::external_body]
fn pop_outputs(consumer: &mut rtrb::Consumer<Vec<Output>>) -> (r: Option<Vec<Output>>)
    ensures
        output_popped(*final(consumer)) == (match r {
            Some(batch) => output_popped(*old(consumer)).push(batch),
            None => output_popped(*old(consumer)),
        }),
{
    match consumer.pop() {
        Ok(batch) => Some(batch),
        Err(_) => None,
    }
}

/// Calls `rtrb::Producer::slots` on a ring of outputs: the capacity, less the batches that were put in
/// and not yet taken out. How many were taken out is the reading half's doing.
#[verifier::external_body]
fn output_slots(producer: &rtrb::Producer<Vec<Output>>) -> (r: usize)
    ensures
        r <= output_limit(*producer),
        r + output_pushed(*producer).len() >= output_limit(*producer),
{
    producer.slots()
}

/// Calls `rtrb::RingBuffer::capacity` on a ring of outputs.
#[verifier::external_body]
fn output_capacity(producer: &rtrb::Producer<Vec<Output>>) -> (r: usize)
    ensures
        r == output_limit(*producer),
{
    producer.buffer().capacity()
}

/// Calls `rtrb::Consumer::is_abandoned`: whether the writing half is gone, which is the writer's
/// doing.
#[verifier::external_body]
fn is_abandoned<T>(consumer: &rtrb::Consumer<Vec<T>>) -> (r: bool) {
    consumer.is_abandoned()
}

/// What rings carry batches of: events on the way to the processor, outputs on the way to the
/// sink.
pub trait Carried: Sized {
    /// Every batch that a writing half has put into its ring, in order.
    spec fn pushed(producer: rtrb::Producer<Vec<Self>>) -> Seq<Vec<Self>>;

    /// The capacity of the ring that a writing half belongs to.
    spec fn limit(producer: rtrb::Producer<Vec<Self>>) -> usize;

    /// Every batch that a reading half has taken out of its ring, in order.
    spec fn popped(consumer: rtrb::Consumer<Vec<Self>>) -> Seq<Vec<Self>>;

    fn new_ring(capacity: usize) -> (r: (rtrb::Producer<Vec<Self>>, rtrb::Consumer<Vec<Self>>))
        requires
            capacity <= ring_limit(),
        ensures
            Self::pushed(r.0) == Seq::<Vec<Self>>::empty(),
            Self::limit(r.0) == capacity,
            Self::popped(r.1) == Seq::<Vec<Self>>::empty(),
    ;

    fn push(producer: &mut rtrb::Producer<Vec<Self>>, batch: Vec<Self>) -> (r: Result<
        (),
        Vec<Self>,
    >)
        ensures
            Self::limit(*final(producer)) == Self::limit(*old(producer)),
            match r {
                Ok(_) => Self::pushed(*final(producer)) == Self::pushed(*old(producer)).push(batch),
                Err(back) => {
                    &&& back == batch
                    &&& Self::pushed(*final(producer)) == Self::pushed(*old(producer))
                    &&& Self::pushed(*old(producer)).len() >= Self::limit(*old(producer))
                },
            },
    ;

    fn pop(consumer: &mut rtrb::Consumer<Vec<Self>>) -> (r: Option<Vec<Self>>)
        ensures
            Self::popped(*final(consumer)) == (match r {
                Some(batch) => Self::popped(*old(consumer)).push(batch),
                None => Self::popped(*old(consumer)),
            }),
    ;

    fn slots(producer: &rtrb::Producer<Vec<Self>>) -> (r: usize)
        ensures
            r <= Self::limit(*producer),
            r + Self::pushed(*producer).len() >= Self::limit(*producer),
    ;

    fn capacity(producer: &rtrb::Producer<Vec<Self>>) -> (r: usize)
        ensures
            r == Self::limit(*producer),
    ;
}

impl Carried for Event {
    open spec fn pushed(producer: rtrb::Producer<Vec<Event>>) -> Seq<Vec<Event>> {
        event_pushed(producer)
    }

    open spec fn limit(producer: rtrb::Producer<Vec<Event>>) -> usize {
        event_limit(producer)
    }

    open spec fn popped(consumer: rtrb::Consumer<Vec<Event>>) -> Seq<Vec<Event>> {
        event_popped(consumer)
    }

    fn new_ring(capacity: usize) -> (r: (rtrb::Producer<Vec<Event>>, rtrb::Consumer<Vec<Event>>)) {
        new_event_ring(capacity)
    }

    fn push(producer: &mut rtrb::Producer<Vec<Event>>, batch: Vec<Event>) -> (r: Result<
        (),
        Vec<Event>,
    >) {
        push_events(producer, batch)
    }

    fn pop(consumer: &mut rtrb::Consumer<Vec<Event>>) -> (r: Option<Vec<Event>>) {
        pop_events(consumer)
    }

    fn slots(producer: &rtrb::Producer<Vec<Event>>) -> (r: usize) {
        event_slots(producer)
    }

    fn capacity(producer: &rtrb::Producer<Vec<Event>>) -> (r: usize) {
        event_capacity(producer)
    }
}

impl Carried for Output {
    open spec fn pushed(producer: rtrb::Producer<Vec<Output>>) -> Seq<Vec<Output>> {
        output_pushed(producer)
    }

    open spec fn limit(producer: rtrb::Producer<Vec<Output>>) -> usize {
        output_limit(producer)
    }

    open spec fn popped(consumer: rtrb::Consumer<Vec<Output>>) -> Seq<Vec<Output>> {
        output_popped(consumer)
    }

    fn new_ring(capacity: usize) -> (r: (rtrb::Producer<Vec<Output>>, rtrb::Consumer<Vec<Output>>)) {
        new_output_ring(capacity)
    }

    fn push(producer: &mut rtrb::Producer<Vec<Output>>, batch: Vec<Output>) -> (r: Result<
        (),
        Vec<Output>,
    >) {
        push_outputs(producer, batch)
    }

    fn pop(consumer: &mut rtrb::Consumer<Vec<Output>>) -> (r: Option<Vec<Output>>) {
        pop_outputs(consumer)
    }

    fn slots(producer: &rtrb::Producer<Vec<Output>>) -> (r: usize) {
        output_slots(producer)
    }

    fn capacity(producer: &rtrb::Producer<Vec<Output>>) -> (r: usize) {
        output_capacity(producer)
    }
}

/// The end of a ring at which batches go in.
#[verifier::reject_recursive_types(T)]
pub struct Outlet<T> {
    producer: rtrb::Producer<Vec<T>>,
}

/// The end of a ring at which batches come out.
#[verifier::reject_recursive_types(T)]
pub struct Inlet<T> {
    consumer: rtrb::Consumer<Vec<T>>,
}

/// What an inlet yields.
pub enum Received<T> {
    /// The next batch.
    Batch(Vec<T>),
    /// Nothing for now.
    Empty,
    /// Nothing any more: the outlet is gone and the ring is empty.
    Closed,
}

/// Makes a ring for `capacity` batches.
pub fn ring<T: Carried>(capacity: usize) -> (r: (Outlet<T>, Inlet<T>))
    requires
        capacity <= ring_limit(),
    ensures
        r.0.batches_sent() == Seq::<Vec<T>>::empty(),
        r.0.room() == capacity,
        r.1.batches_taken() == Seq::<Vec<T>>::empty(),
{
    let (producer, consumer) = T::new_ring(capacity);
    (Outlet { producer }, Inlet { consumer })
}

impl<T: Carried> Outlet<T> {
    /// Every batch that has gone in, in order.
    pub closed spec fn batches_sent(&self) -> Seq<Vec<T>> {
        T::pushed(self.producer)
    }

    /// How many batches the ring can hold.
    pub closed spec fn room(&self) -> usize {
        T::limit(self.producer)
    }

    /// Offers a batch to the ring. A ring that is full hands the batch back whole; one that was
    /// given fewer batches than it can hold takes it.
    pub fn offer(&mut self, batch: Vec<T>) -> (r: Result<(), Vec<T>>)
        ensures
            final(self).room() == old(self).room(),
            match r {
                Ok(_) => final(self).batches_sent() == old(self).batches_sent().push(batch),
                Err(back) => {
                    &&& back == batch
                    &&& final(self).batches_sent() == old(self).batches_sent()
                    &&& old(self).batches_sent().len() >= old(self).room()
                },
            },
    {
        T::push(&mut self.producer, batch)
    }

    /// How many batches the ring can hold.
    pub fn capacity(&self) -> (r: usize)
        ensures
            r == self.room(),
    {
        T::capacity(&self.producer)
    }

    /// How many batches can be offered right now: as many as the ring can hold, less those that
    /// went in and have not come out. How many have come out is the inlet's doing: at least none,
    /// and at most all.
    pub fn slots(&self) -> (r: usize)
        ensures
            r <= self.room(),
            r + self.batches_sent().len() >= self.room(),
    {
        T::slots(&self.producer)
    }
}

impl<T: Carried> Inlet<T> {
    /// Every batch that has come out, in order.
    pub closed spec fn batches_taken(&self) -> Seq<Vec<T>> {
        T::popped(self.consumer)
    }

    /// Takes the next batch. A ring whose outlet is gone is asked once more before it counts as
    /// closed, because a last batch may have gone in between.
    pub fn receive(&mut self) -> (r: Received<T>)
        ensures
            match r {
                Received::Batch(b) => final(self).batches_taken() == old(
                    self,
                ).batches_taken().push(b),
                _ => final(self).batches_taken() == old(self).batches_taken(),
            },
    {
        let first = T::pop(&mut self.consumer);
        let abandoned = first.is_none() && is_abandoned(&self.consumer);
        let again = if abandoned {
            T::pop(&mut self.consumer)
        } else {
            None
        };
        reading(first, abandoned, again)
    }
}

/// What follows from asking a ring: what came out first, whether the outlet was gone when nothing
/// did, and what came out when it was asked again.
pub fn reading<T>(first: Option<Vec<T>>, abandoned: bool, again: Option<Vec<T>>) -> (r: Received<T>)
    ensures
        r == (match first {
            Some(batch) => Received::Batch(batch),
            None => if abandoned {
                match again {
                    Some(batch) => Received::Batch(batch),
                    None => Received::Closed,
                }
            } else {
                Received::Empty
            },
        }),
{
    match first {
        Some(batch) => Received::Batch(batch),
        None => if abandoned {
            match again {
                Some(batch) => Received::Batch(batch),
                None => Received::Closed,
            }
        } else {
            Received::Empty
        },
    }
}

/// A batch on its way into a ring that may be full.
pub struct Handoff<T> {
    pub pending: Option<Vec<T>>,
}

impl<T: Carried> Handoff<T> {
    pub fn new(batch: Vec<T>) -> (r: Self)
        ensures
            r.pending == Some(batch),
    {
        Handoff { pending: Some(batch) }
    }

    /// Tries to hand the batch over, and says whether that is done. Until it is, the batch is
    /// kept whole; it goes in exactly once, and at once where the ring was given fewer batches
    /// than it can hold.
    pub fn attempt(&mut self, outlet: &mut Outlet<T>) -> (done: bool)
        ensures
            final(outlet).room() == old(outlet).room(),
            match old(self).pending {
                None => done && final(self).pending is None && final(outlet).batches_sent() == old(
                    outlet,
                ).batches_sent(),
                Some(batch) => if done {
                    final(self).pending is None && final(outlet).batches_sent() == old(
                        outlet,
                    ).batches_sent().push(batch)
                } else {
                    &&& final(self).pending == old(self).pending
                    &&& final(outlet).batches_sent() == old(outlet).batches_sent()
                    &&& old(outlet).batches_sent().len() >= old(outlet).room()
                },
            },
    {
        match self.pending.take() {
            None => true,
            Some(batch) => match outlet.offer(batch) {
                Ok(()) => true,
                Err(back) => {
                    self.pending = Some(back);
                    false
                },
            },
        }
    }
}

/// The items of some batches, one after the other.
pub open spec fn items<T>(batches: Seq<Vec<T>>) -> Seq<T>
    decreases batches.len(),
{
    if batches.len() == 0 {
        seq![]
    } else {
        items(batches.drop_last()) + batches.last()@
    }
}

/// Where batches come out of a ring in the order in which they went in, so do their items; and once
/// every batch is out, so is every item.
pub proof fn law_items_keep_their_order<T>(sent: Seq<Vec<T>>, taken: Seq<Vec<T>>)
    requires
        taken.is_prefix_of(sent),
    ensures
        items(taken).is_prefix_of(items(sent)),
        taken.len() == sent.len() ==> items(taken) == items(sent),
    decreases sent.len(),
{
    if taken.len() < sent.len() {
        let front = sent.drop_last();
        assert(front.take(taken.len() as int) =~= sent.take(taken.len() as int));
        law_items_keep_their_order(front, taken);
        let n = items(taken).len() as int;
        assert(items(sent).take(n) =~= items(front).take(n));
    } else {
        assert(sent.take(taken.len() as int) =~= sent);
        let all = items(sent);
        assert(all.take(all.len() as int) =~= all);
    }
}

} // verus!
