//! Built-in processors.
use vstd::prelude::*;

use crate::types::{Event, Output};

verus! {

/// Hands every event on unchanged.
pub struct PassthroughProcessor {
    destination: String,
}

/// Whether an output carries an event on to a destination: the same payload, and all that says
/// where it came from.
pub open spec fn carries(o: Output, e: Event, destination: Seq<char>) -> bool {
    &&& o.destination@ == destination
    &&& o.payload == e.payload
    &&& o.key is None
    &&& o.headers@.len() == 0
    &&& o.source_ts == e.source_ts
    &&& o.source_event_id == Some(e.id)
    &&& o.source_partition == Some(e.partition)
    &&& o.source_offset == e.source_offset
    &&& o.l2_seq == e.l2_seq
}

impl PassthroughProcessor {
    /// Where outputs go.
    pub closed spec fn target(&self) -> Seq<char> {
        self.destination@
    }

    pub fn new(destination: String) -> (r: Self)
        ensures
            r.target() == destination@,
    {
        PassthroughProcessor { destination }
    }

    fn carry(&self, event: Event) -> (r: Output)
        ensures
            carries(r, event, self.target()),
    {
        Output {
            destination: self.destination.clone(),
            key: None,
            payload: event.payload,
            headers: Vec::new(),
            source_ts: event.source_ts,
            source_event_id: Some(event.id),
            source_partition: Some(event.partition),
            source_offset: event.source_offset,
            l2_seq: event.l2_seq,
        }
    }

    /// One output for the event.
    pub fn process(&self, event: Event) -> (r: Vec<Output>)
        ensures
            r@.len() == 1,
            carries(r@[0], event, self.target()),
    {
        let mut out: Vec<Output> = Vec::new();
        out.push(self.carry(event));
        out
    }

    /// One output for each event, in order.
    pub fn process_batch(&self, events: Vec<Event>) -> (r: Vec<Output>)
        ensures
            r@.len() == events@.len(),
            forall|i: int|
                0 <= i < r@.len() ==> carries(#[trigger] r@[i], events@[i], self.target()),
    {
        let ghost all = events@;
        let mut out: Vec<Output> = Vec::new();
        for e in it: events.into_iter()
            invariant
                it.seq() == all,
                out@.len() == it.index(),
                forall|i: int|
                    0 <= i < out@.len() ==> carries(#[trigger] out@[i], all[i], self.target()),
        {
            out.push(self.carry(e));
        }
        out
    }
}

/// An output that is handed on tells which event it came from, when, from where, and what it
/// carried.
pub proof fn law_outputs_tell_their_events(e: Event, o: Output, destination: Seq<char>)
    requires
        carries(o, e, destination),
    ensures
        o.destination@ == destination,
        o.payload@ == e.payload@,
        o.key is None,
        o.headers@ == Seq::<(String, String)>::empty(),
        o.source_event_id is Some && o.source_event_id->0 == e.id,
        o.source_partition is Some && o.source_partition->0 == e.partition,
        o.source_offset == e.source_offset,
        o.source_ts == e.source_ts,
        o.l2_seq == e.l2_seq,
{
}

} // verus!
